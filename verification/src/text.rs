//! Character-level text helpers shared by every module.
//!
//! Strings are reasoned about through their views, `Seq<char>`. The helpers
//! here state, over those views, what `str::trim`, `split_whitespace`,
//! prefix tests, substring search and the byte-wise string order compute, and
//! implement them with verified loops.
use vstd::prelude::*;

verus! {

/// Unicode `White_Space`, the set `char::is_whitespace` accepts.
pub open spec fn is_space(c: char) -> bool {
    let u = c as u32;
    ||| 0x9 <= u <= 0xd
    ||| u == 0x20
    ||| u == 0x85
    ||| u == 0xa0
    ||| u == 0x1680
    ||| 0x2000 <= u <= 0x200a
    ||| u == 0x2028
    ||| u == 0x2029
    ||| u == 0x202f
    ||| u == 0x205f
    ||| u == 0x3000
}

/// The view of an optional string.
pub open spec fn opt_view(o: Option<String>) -> Option<Seq<char>> {
    match o {
        Some(s) => Some(s@),
        None => None,
    }
}

/// Whether every character of `s` is white space (also true when empty).
pub open spec fn is_blank(s: Seq<char>) -> bool {
    forall|i: int| 0 <= i < s.len() ==> is_space(#[trigger] s[i])
}

/// Index of the first character at or after `i` that is not white space.
pub open spec fn skip_space_from(s: Seq<char>, i: int) -> int
    decreases s.len() - i,
{
    if 0 <= i < s.len() && is_space(s[i]) {
        skip_space_from(s, i + 1)
    } else {
        i
    }
}

/// One past the last character before `j` that is not white space.
pub open spec fn trim_end_from(s: Seq<char>, j: int) -> int
    decreases j,
{
    if 0 < j <= s.len() && is_space(s[j - 1]) {
        trim_end_from(s, j - 1)
    } else {
        j
    }
}

/// What `str::trim` keeps of `s`.
pub open spec fn trim(s: Seq<char>) -> Seq<char> {
    let a = skip_space_from(s, 0);
    let b = trim_end_from(s, s.len() as int);
    if a < b {
        s.subrange(a, b)
    } else {
        Seq::empty()
    }
}

/// `prefix` begins `s`.
pub open spec fn has_prefix(s: Seq<char>, prefix: Seq<char>) -> bool {
    prefix.len() <= s.len() && s.subrange(0, prefix.len() as int) == prefix
}

/// `needle` occurs in `s` at position `i`.
pub open spec fn occurs_at(s: Seq<char>, needle: Seq<char>, i: int) -> bool {
    0 <= i && i + needle.len() <= s.len() && s.subrange(i, i + needle.len()) == needle
}

/// `needle` occurs somewhere in `s` (the empty needle occurs everywhere).
pub open spec fn contains_seq(s: Seq<char>, needle: Seq<char>) -> bool {
    exists|i: int| occurs_at(s, needle, i)
}

/// Words of `s[i..]` as `split_whitespace` yields them, where `cur` is the
/// part of a word already read before `i`.
pub open spec fn words_acc(s: Seq<char>, i: int, cur: Seq<char>) -> Seq<Seq<char>>
    decreases s.len() - i,
{
    if i >= s.len() || i < 0 {
        if cur.len() > 0 {
            seq![cur]
        } else {
            Seq::empty()
        }
    } else if is_space(s[i]) {
        (if cur.len() > 0 {
            seq![cur]
        } else {
            Seq::empty()
        }) + words_acc(s, i + 1, Seq::empty())
    } else {
        words_acc(s, i + 1, cur.push(s[i]))
    }
}

/// The maximal runs of non-white-space characters of `s`, in order
/// (`str::split_whitespace`).
pub open spec fn words(s: Seq<char>) -> Seq<Seq<char>> {
    words_acc(s, 0, Seq::empty())
}

/// `parts` joined with `sep` between consecutive parts.
pub open spec fn join(parts: Seq<Seq<char>>, sep: Seq<char>) -> Seq<char>
    decreases parts.len(),
{
    if parts.len() == 0 {
        Seq::empty()
    } else if parts.len() == 1 {
        parts[0]
    } else {
        join(parts.drop_last(), sep) + sep + parts.last()
    }
}

/// The words of `s` joined by single spaces.
pub open spec fn normalize_space(s: Seq<char>) -> Seq<char> {
    join(words(s), seq![' '])
}

/// Strict order of strings: Rust's `Ord` on `str` compares UTF-8 bytes, which
/// orders strings exactly as comparing their characters by code point.
pub open spec fn lex_lt(a: Seq<char>, b: Seq<char>) -> bool
    decreases a.len(),
{
    if a.len() == 0 {
        b.len() > 0
    } else if b.len() == 0 {
        false
    } else if a[0] != b[0] {
        (a[0] as int) < (b[0] as int)
    } else {
        lex_lt(a.drop_first(), b.drop_first())
    }
}

pub open spec fn lex_le(a: Seq<char>, b: Seq<char>) -> bool {
    a == b || lex_lt(a, b)
}

/// `lex_lt` never holds of a string and itself.
pub proof fn lemma_lex_irreflexive(a: Seq<char>)
    ensures
        !lex_lt(a, a),
    decreases a.len(),
{
    if a.len() > 0 {
        lemma_lex_irreflexive(a.drop_first());
    }
}

/// Exactly one of `a < b`, `a == b`, `b < a` holds.
pub proof fn lemma_lex_trichotomy(a: Seq<char>, b: Seq<char>)
    ensures
        lex_lt(a, b) || a == b || lex_lt(b, a),
        !(lex_lt(a, b) && lex_lt(b, a)),
    decreases a.len(),
{
    if a.len() > 0 && b.len() > 0 {
        if a[0] == b[0] {
            lemma_lex_trichotomy(a.drop_first(), b.drop_first());
            if a.drop_first() == b.drop_first() {
                assert(a =~= seq![a[0]] + a.drop_first());
                assert(b =~= seq![b[0]] + b.drop_first());
            }
        }
    } else if a.len() == 0 && b.len() == 0 {
        assert(a =~= b);
    }
}

/// `lex_lt` is transitive.
pub proof fn lemma_lex_transitive(a: Seq<char>, b: Seq<char>, c: Seq<char>)
    requires
        lex_lt(a, b),
        lex_lt(b, c),
    ensures
        lex_lt(a, c),
    decreases a.len(),
{
    if a.len() > 0 && b.len() > 0 && c.len() > 0 {
        if a[0] == b[0] && b[0] == c[0] {
            lemma_lex_transitive(a.drop_first(), b.drop_first(), c.drop_first());
        }
    }
}

/// Unicode white space test (`char::is_whitespace`).
pub fn is_space_char(c: char) -> (b: bool)
    ensures
        b == is_space(c),
{
    let u = c as u32;
    (0x9 <= u && u <= 0xd) || u == 0x20 || u == 0x85 || u == 0xa0 || u == 0x1680 || (0x2000 <= u
        && u <= 0x200a) || u == 0x2028 || u == 0x2029 || u == 0x202f || u == 0x205f || u == 0x3000
}

/// The characters of a string slice, in order.
pub fn chars_of(s: &str) -> (v: Vec<char>)
    ensures
        v@ == s@,
{
    let mut v: Vec<char> = Vec::new();
    for c in it: s.chars()
        invariant
            v@ == it.seq().take(it.index() as int),
            it.seq() == s@,
    {
        v.push(c);
    }
    v
}

/// Appends one character to a string (`String::push`).
#[verifier::external_body]
pub(crate) fn push_char(s: &mut String, c: char)
    ensures
        final(s)@ == old(s)@.push(c),
{
    s.push(c);
}

/// Compares two string slices for equality, character by character.
pub(crate) fn str_eq(a: &str, b: &str) -> (r: bool)
    ensures
        r == (a@ == b@),
{
    let x = chars_of(a);
    let y = chars_of(b);
    if x.len() != y.len() {
        return false;
    }
    let mut i: usize = 0;
    while i < x.len()
        invariant
            x@ == a@,
            y@ == b@,
            x@.len() == y@.len(),
            i <= x@.len(),
            forall|k: int| 0 <= k < i ==> x@[k] == y@[k],
        decreases x@.len() - i,
    {
        if x[i] != y[i] {
            return false;
        }
        i = i + 1;
    }
    assert(x@ =~= y@);
    true
}

/// A string holding exactly the given characters.
pub fn string_of(cs: &[char]) -> (s: String)
    ensures
        s@ == cs@,
{
    let mut s = String::new();
    let mut i: usize = 0;
    while i < cs.len()
        invariant
            i <= cs@.len(),
            s@ == cs@.take(i as int),
        decreases cs@.len() - i,
    {
        push_char(&mut s, cs[i]);
        assert(cs@.take(i + 1) =~= cs@.take(i as int).push(cs@[i as int]));
        i = i + 1;
    }
    assert(cs@.take(cs@.len() as int) =~= cs@);
    s
}

/// The characters `cs[a..b]` as a new vector.
pub fn sub_chars(cs: &Vec<char>, a: usize, b: usize) -> (v: Vec<char>)
    requires
        a <= b <= cs@.len(),
    ensures
        v@ == cs@.subrange(a as int, b as int),
{
    let mut v: Vec<char> = Vec::new();
    let mut i = a;
    while i < b
        invariant
            a <= i <= b,
            b <= cs@.len(),
            v@ == cs@.subrange(a as int, i as int),
        decreases b - i,
    {
        v.push(cs[i]);
        assert(cs@.subrange(a as int, i + 1) =~= cs@.subrange(a as int, i as int).push(cs@[i as int]));
        i = i + 1;
    }
    v
}

/// An owned copy of a string slice.
pub fn owned(s: &str) -> (r: String)
    ensures
        r@ == s@,
{
    s.to_owned()
}

/// `a` followed by `b`.
pub fn concat(a: &str, b: &str) -> (r: String)
    ensures
        r@ == a@ + b@,
{
    let mut r = a.to_owned();
    r.append(b);
    r
}

/// `a`, `b` and `c` in sequence.
pub fn concat3(a: &str, b: &str, c: &str) -> (r: String)
    ensures
        r@ == a@ + b@ + c@,
{
    let mut r = a.to_owned();
    r.append(b);
    r.append(c);
    r
}

/// Whether every character is white space (`s.trim().is_empty()`).
pub fn blank(s: &str) -> (b: bool)
    ensures
        b == is_blank(s@),
{
    let cs = chars_of(s);
    let mut i: usize = 0;
    while i < cs.len()
        invariant
            i <= cs@.len(),
            cs@ == s@,
            forall|k: int| 0 <= k < i ==> is_space(#[trigger] cs@[k]),
        decreases cs@.len() - i,
    {
        if !is_space_char(cs[i]) {
            return false;
        }
        i = i + 1;
    }
    true
}

proof fn lemma_skip_space_bounds(s: Seq<char>, i: int)
    requires
        0 <= i <= s.len(),
    ensures
        i <= skip_space_from(s, i) <= s.len(),
        forall|k: int| i <= k < skip_space_from(s, i) ==> is_space(#[trigger] s[k]),
        skip_space_from(s, i) < s.len() ==> !is_space(s[skip_space_from(s, i)]),
    decreases s.len() - i,
{
    if i < s.len() && is_space(s[i]) {
        lemma_skip_space_bounds(s, i + 1);
    }
}

proof fn lemma_trim_end_bounds(s: Seq<char>, j: int)
    requires
        0 <= j <= s.len(),
    ensures
        0 <= trim_end_from(s, j) <= j,
        forall|k: int| trim_end_from(s, j) <= k < j ==> is_space(#[trigger] s[k]),
        trim_end_from(s, j) > 0 ==> !is_space(s[trim_end_from(s, j) - 1]),
    decreases j,
{
    if 0 < j && is_space(s[j - 1]) {
        lemma_trim_end_bounds(s, j - 1);
    }
}

/// The positions `trim` keeps: `(start, end)` with `trim(s) == s[start..end]`
/// when `start < end`, and an empty trim otherwise.
pub fn trim_bounds(cs: &Vec<char>) -> (r: (usize, usize))
    ensures
        r.0 == skip_space_from(cs@, 0),
        r.1 == trim_end_from(cs@, cs@.len() as int),
        r.1 <= cs@.len(),
        r.0 <= cs@.len(),
        trim(cs@) == (if r.0 < r.1 {
            cs@.subrange(r.0 as int, r.1 as int)
        } else {
            Seq::empty()
        }),
{
    let mut a: usize = 0;
    proof {
        lemma_skip_space_bounds(cs@, 0);
    }
    while a < cs.len() && is_space_char(cs[a])
        invariant
            a <= cs@.len(),
            skip_space_from(cs@, a as int) == skip_space_from(cs@, 0),
        decreases cs@.len() - a,
    {
        a = a + 1;
    }
    let mut b: usize = cs.len();
    while b > 0 && is_space_char(cs[b - 1])
        invariant
            b <= cs@.len(),
            trim_end_from(cs@, b as int) == trim_end_from(cs@, cs@.len() as int),
        decreases b,
    {
        b = b - 1;
    }
    (a, b)
}

/// `str::trim`, as an owned string.
pub fn trimmed(s: &str) -> (r: String)
    ensures
        r@ == trim(s@),
{
    let cs = chars_of(s);
    let (a, b) = trim_bounds(&cs);
    if a < b {
        string_of(&cs.as_slice()[a..b])
    } else {
        String::new()
    }
}

/// Whether `prefix` begins `s`.
pub fn starts_with(s: &str, prefix: &str) -> (b: bool)
    ensures
        b == has_prefix(s@, prefix@),
{
    let cs = chars_of(s);
    let ps = chars_of(prefix);
    seq_starts_with(&cs, &ps, 0)
}

/// Whether `p` occurs in `cs` at position `at`.
pub fn seq_starts_with(cs: &Vec<char>, p: &Vec<char>, at: usize) -> (b: bool)
    requires
        at <= cs@.len(),
    ensures
        b == occurs_at(cs@, p@, at as int),
        at == 0 ==> (b == has_prefix(cs@, p@)),
{
    let n = cs.len();
    if p.len() > n - at {
        return false;
    }
    let mut i: usize = 0;
    while i < p.len()
        invariant
            n == cs@.len(),
            i <= p@.len(),
            at <= cs@.len(),
            at + p@.len() <= cs@.len(),
            forall|k: int| 0 <= k < i ==> cs@[at + k] == p@[k],
        decreases p@.len() - i,
    {
        if cs[at + i] != p[i] {
            assert(cs@.subrange(at as int, at + p@.len())[i as int] != p@[i as int]);
            return false;
        }
        i = i + 1;
    }
    assert(cs@.subrange(at as int, at + p@.len()) =~= p@);
    true
}

/// Position of the first occurrence of `needle` in `cs` at or after `from`.
pub fn find_from(cs: &Vec<char>, needle: &Vec<char>, from: usize) -> (r: Option<usize>)
    requires
        from <= cs@.len(),
    ensures
        r matches Some(i) ==> from <= i && occurs_at(cs@, needle@, i as int) && forall|k: int|
            from <= k < i ==> !occurs_at(cs@, needle@, k),
        r is None ==> forall|k: int| from <= k ==> !occurs_at(cs@, needle@, k),
{
    let mut i = from;
    loop
        invariant
            from <= i <= cs@.len(),
            forall|k: int| from <= k < i ==> !occurs_at(cs@, needle@, k),
        decreases cs@.len() - i,
    {
        if seq_starts_with(cs, needle, i) {
            return Some(i);
        }
        if i == cs.len() {
            assert forall|k: int| from <= k implies !occurs_at(cs@, needle@, k) by {
                if k > i && occurs_at(cs@, needle@, k) {
                }
            }
            return None;
        }
        i = i + 1;
    }
}

/// Whether `needle` occurs in `s` (`str::contains`).
pub fn contains(s: &str, needle: &str) -> (b: bool)
    ensures
        b == contains_seq(s@, needle@),
{
    let cs = chars_of(s);
    let ns = chars_of(needle);
    match find_from(&cs, &ns, 0) {
        Some(_) => true,
        None => false,
    }
}

/// Strict string order on two slices (`a < b` for `str`).
pub fn str_lt(a: &str, b: &str) -> (r: bool)
    ensures
        r == lex_lt(a@, b@),
{
    let x = chars_of(a);
    let y = chars_of(b);
    let mut i: usize = 0;
    assert(x@.skip(0) =~= x@);
    assert(y@.skip(0) =~= y@);
    while i < x.len() && i < y.len()
        invariant
            i <= x@.len(),
            i <= y@.len(),
            x@ == a@,
            y@ == b@,
            x@.take(i as int) == y@.take(i as int),
            lex_lt(x@, y@) == lex_lt(x@.skip(i as int), y@.skip(i as int)),
        decreases x@.len() - i,
    {
        if x[i] != y[i] {
            let xc: char = x[i];
            let yc: char = y[i];
            return xc < yc;
        }
        proof {
            assert(x@.skip(i as int).drop_first() =~= x@.skip(i + 1));
            assert(y@.skip(i as int).drop_first() =~= y@.skip(i + 1));
            assert(x@.take(i + 1) =~= x@.take(i as int).push(x@[i as int]));
            assert(y@.take(i + 1) =~= y@.take(i as int).push(y@[i as int]));
        }
        i = i + 1;
    }
    i < y.len()
}

/// Splits `s` into its white-space separated words (`split_whitespace`).
pub fn split_words(s: &str) -> (ws: Vec<String>)
    ensures
        ws@.len() == words(s@).len(),
        forall|k: int| 0 <= k < ws@.len() ==> #[trigger] ws@[k]@ == words(s@)[k],
{
    let cs = chars_of(s);
    let mut out: Vec<String> = Vec::new();
    let mut cur: Vec<char> = Vec::new();
    let ghost mut out_view: Seq<Seq<char>> = Seq::empty();
    let mut i: usize = 0;
    while i < cs.len()
        invariant
            i <= cs@.len(),
            cs@ == s@,
            out@.len() == out_view.len(),
            forall|k: int| 0 <= k < out@.len() ==> #[trigger] out@[k]@ == out_view[k],
            words(s@) == out_view + words_acc(cs@, i as int, cur@),
        decreases cs@.len() - i,
    {
        if is_space_char(cs[i]) {
            if cur.len() > 0 {
                let w = string_of(cur.as_slice());
                out.push(w);
                proof {
                    out_view = out_view.push(cur@);
                    assert(out_view.drop_last() + seq![cur@] =~= out_view);
                }
                cur = Vec::new();
                proof {
                    assert(words(s@) == out_view + words_acc(cs@, i + 1, Seq::empty()));
                }
            } else {
                proof {
                    assert(Seq::<Seq<char>>::empty() + words_acc(cs@, i + 1, Seq::empty())
                        =~= words_acc(cs@, i + 1, Seq::empty()));
                    assert(cur@ =~= Seq::<char>::empty());
                }
            }
        } else {
            cur.push(cs[i]);
        }
        i = i + 1;
    }
    if cur.len() > 0 {
        let w = string_of(cur.as_slice());
        out.push(w);
        proof {
            out_view = out_view.push(cur@);
            assert(out_view.drop_last() + seq![cur@] =~= out_view);
        }
    } else {
        proof {
            assert(out_view + Seq::<Seq<char>>::empty() =~= out_view);
        }
    }
    proof {
        assert(words(s@) =~= out_view);
    }
    out
}

/// Joins `parts` with `sep` between consecutive parts (`[..].join(sep)`).
pub fn join_strings(parts: &Vec<String>, sep: &str) -> (r: String)
    ensures
        r@ == join(parts@.map_values(|p: String| p@), sep@),
{
    let ghost views = parts@.map_values(|p: String| p@);
    let mut r = String::new();
    let mut i: usize = 0;
    while i < parts.len()
        invariant
            i <= parts@.len(),
            views == parts@.map_values(|p: String| p@),
            r@ == join(views.take(i as int), sep@),
        decreases parts@.len() - i,
    {
        proof {
            assert(views.take(i + 1).drop_last() =~= views.take(i as int));
        }
        if i > 0 {
            r.append(sep);
        } else {
            assert(views.take(1) =~= seq![views[0]]);
        }
        r.append(parts[i].as_str());
        i = i + 1;
    }
    assert(views.take(parts@.len() as int) =~= views);
    r
}

/// The words of `s` joined by single spaces
/// (`s.split_whitespace().collect::<Vec<_>>().join(" ")`).
pub fn normalize(s: &str) -> (r: String)
    ensures
        r@ == normalize_space(s@),
{
    let ws = split_words(s);
    let r = join_strings(&ws, " ");
    proof {
        assert(ws@.map_values(|p: String| p@) =~= words(s@));
        reveal_strlit(" ");
        assert(" "@ =~= seq![' ']);
    }
    r
}


/// The decimal digit for a value below ten.
pub open spec fn digit_char(d: int) -> char {
    (('0' as int) + d) as char
}

/// The decimal spelling of `n`, without leading zeros.
pub open spec fn decimal(n: nat) -> Seq<char>
    decreases n,
{
    if n < 10 {
        seq![digit_char(n as int)]
    } else {
        decimal(n / 10).push(digit_char((n % 10) as int))
    }
}

fn digit_of(d: u64) -> (c: char)
    requires
        d < 10,
    ensures
        c == digit_char(d as int),
{
    let table: [char; 10] = ['0', '1', '2', '3', '4', '5', '6', '7', '8', '9'];
    let c = table[d as usize];
    assert(c == digit_char(d as int));
    c
}

/// Appends the decimal spelling of `n` (`format!("{n}")`).
pub fn push_decimal(s: &mut String, n: u64)
    ensures
        final(s)@ == old(s)@ + decimal(n as nat),
    decreases n,
{
    if n >= 10 {
        push_decimal(s, n / 10);
    }
    push_char(s, digit_of(n % 10));
    proof {
        if n < 10 {
            assert(n % 10 == n);
        }
    }
}

/// Appends `n` (below 1000) as exactly three digits, zero-padded.
pub fn push_three_digits(s: &mut String, n: u64)
    requires
        n < 1000,
    ensures
        final(s)@ == old(s)@ + seq![
            digit_char((n / 100) as int),
            digit_char(((n / 10) % 10) as int),
            digit_char((n % 10) as int),
        ],
{
    push_char(s, digit_of(n / 100));
    push_char(s, digit_of((n / 10) % 10));
    push_char(s, digit_of(n % 10));
}
} // verus!
