//! Lexical helpers over Lean source text: splitting a file into lines,
//! removing `--` and nested `/- -/` comments line by line, reading `import`
//! lines, and finding whole-name token occurrences.
use vstd::prelude::*;

use crate::sets::{is_ordered_set, sorted_unique, views};
use crate::text::{chars_of, has_prefix, occurs_at, seq_starts_with, split_words, string_of, sub_chars, trim, trimmed, words, find_from};

verus! {

/// Total number of characters over all lines.
pub open spec fn total_len(ls: Seq<Seq<char>>) -> int
    decreases ls.len(),
{
    if ls.len() == 0 {
        0
    } else {
        total_len(ls.drop_last()) + ls.last().len()
    }
}

proof fn lemma_total_len_take_mono(ls: Seq<Seq<char>>, a: int, b: int)
    requires
        0 <= a <= b <= ls.len(),
    ensures
        total_len(ls.take(a)) <= total_len(ls.take(b)),
    decreases b - a,
{
    if a < b {
        assert(ls.take(b).drop_last() =~= ls.take(b - 1));
        lemma_total_len_take_mono(ls, a, b - 1);
    }
}

/// A line without its one trailing carriage return, if it has one.
pub open spec fn drop_cr(cur: Seq<char>) -> Seq<char> {
    if cur.len() > 0 && cur.last() == '\r' {
        cur.drop_last()
    } else {
        cur
    }
}

/// Lines of `s[i..]` as `str::lines` yields them, `cur` being the part of the
/// current line read before `i`: lines end at `\n` (a `\r` right before it is
/// dropped too), and a last line without `\n` counts only when non-empty.
pub open spec fn lines_acc(s: Seq<char>, i: int, cur: Seq<char>) -> Seq<Seq<char>>
    decreases s.len() - i,
{
    if i < 0 || i >= s.len() {
        if cur.len() > 0 {
            seq![cur]
        } else {
            Seq::empty()
        }
    } else if s[i] == '\n' {
        seq![drop_cr(cur)] + lines_acc(s, i + 1, Seq::empty())
    } else {
        lines_acc(s, i + 1, cur.push(s[i]))
    }
}

/// The lines of `s` (`str::lines`).
pub open spec fn lines_of(s: Seq<char>) -> Seq<Seq<char>> {
    lines_acc(s, 0, Seq::empty())
}

/// Splits a text into its lines (`str::lines`).
pub fn split_lines(text: &str) -> (r: Vec<String>)
    ensures
        views(r@) == lines_of(text@),
        total_len(views(r@)) <= text@.len(),
        text@.len() <= usize::MAX,
{
    let cs = chars_of(text);
    let _n = cs.len();
    let mut out: Vec<String> = Vec::new();
    let mut cur: Vec<char> = Vec::new();
    let mut i: usize = 0;
    while i < cs.len()
        invariant
            i <= cs@.len(),
            cs@ == text@,
            lines_of(text@) == views(out@) + lines_acc(cs@, i as int, cur@),
            total_len(views(out@)) + cur@.len() <= i,
        decreases cs@.len() - i,
    {
        if cs[i] == '\n' {
            let n = cur.len();
            let line = if n > 0 && cur[n - 1] == '\r' {
                let head = sub_chars(&cur, 0, n - 1);
                string_of(head.as_slice())
            } else {
                string_of(cur.as_slice())
            };
            proof {
                if n > 0 && cur@[n - 1] == '\r' {
                    assert(cur@.subrange(0, n - 1) =~= cur@.drop_last());
                }
                assert(line@ == drop_cr(cur@));
            }
            let ghost prev = views(out@);
            out.push(line);
            proof {
                assert(views(out@) =~= prev.push(line@));
                assert(views(out@).drop_last() =~= prev);
                assert(prev + (seq![drop_cr(cur@)] + lines_acc(cs@, i + 1, Seq::empty()))
                    =~= views(out@) + lines_acc(cs@, i + 1, Seq::empty()));
            }
            cur = Vec::new();
        } else {
            cur.push(cs[i]);
        }
        i = i + 1;
    }
    if cur.len() > 0 {
        let line = string_of(cur.as_slice());
        let ghost prev = views(out@);
        out.push(line);
        proof {
            assert(views(out@) =~= prev.push(line@));
            assert(views(out@).drop_last() =~= prev);
            assert(views(out@) =~= prev + seq![cur@]);
        }
    } else {
        assert(views(out@) + Seq::<Seq<char>>::empty() =~= views(out@));
    }
    out
}

/// `a` then `b` at position `i` of `s`.
pub open spec fn pair_at(s: Seq<char>, i: int, a: char, b: char) -> bool {
    0 <= i && i + 1 < s.len() && s[i] == a && s[i + 1] == b
}

/// Comment removal over `s[i..]` at block-comment depth `depth`, `out`
/// holding the kept characters so far; gives the kept text and the depth at
/// the end of the line. `--` outside a block comment ends the line, `/-`
/// opens a (nested) block comment, `-/` closes one.
pub open spec fn strip_from(s: Seq<char>, i: int, depth: nat, out: Seq<char>) -> (Seq<char>, nat)
    decreases s.len() - i,
{
    if i < 0 || i >= s.len() {
        (out, depth)
    } else if depth == 0 && pair_at(s, i, '-', '-') {
        (out, depth)
    } else if pair_at(s, i, '/', '-') {
        strip_from(s, i + 2, depth + 1, out)
    } else if depth > 0 && pair_at(s, i, '-', '/') {
        strip_from(s, i + 2, (depth - 1) as nat, out)
    } else if depth == 0 {
        strip_from(s, i + 1, depth, out.push(s[i]))
    } else {
        strip_from(s, i + 1, depth, out)
    }
}

/// Every line with its comments removed, block comments spanning lines.
pub open spec fn strip_lines(lines: Seq<Seq<char>>, depth: nat) -> Seq<Seq<char>>
    decreases lines.len(),
{
    if lines.len() == 0 {
        Seq::empty()
    } else {
        let r = strip_from(lines[0], 0, depth, Seq::empty());
        seq![r.0] + strip_lines(lines.drop_first(), r.1)
    }
}

fn strip_line(cs: &Vec<char>, depth0: usize) -> (r: (String, usize))
    requires
        depth0 + cs@.len() <= usize::MAX,
    ensures
        r.0@ == strip_from(cs@, 0, depth0 as nat, Seq::empty()).0,
        r.1 == strip_from(cs@, 0, depth0 as nat, Seq::empty()).1,
        r.1 <= depth0 + cs@.len(),
{
    let mut out: Vec<char> = Vec::new();
    let mut depth = depth0;
    let mut i: usize = 0;
    while i < cs.len()
        invariant
            i <= cs@.len(),
            depth <= depth0 + i,
            depth0 + cs@.len() <= usize::MAX,
            strip_from(cs@, 0, depth0 as nat, Seq::empty()) == strip_from(
                cs@,
                i as int,
                depth as nat,
                out@,
            ),
        ensures
            depth <= depth0 + cs@.len(),
            strip_from(cs@, 0, depth0 as nat, Seq::empty()) == (out@, depth as nat),
        decreases cs@.len() - i,
    {
        let has_next = i + 1 < cs.len();
        if depth == 0 && has_next && cs[i] == '-' && cs[i + 1] == '-' {
            break ;
        }
        if has_next && cs[i] == '/' && cs[i + 1] == '-' {
            depth = depth + 1;
            i = i + 2;
        } else if depth > 0 && has_next && cs[i] == '-' && cs[i + 1] == '/' {
            depth = depth - 1;
            i = i + 2;
        } else if depth == 0 {
            out.push(cs[i]);
            i = i + 1;
        } else {
            i = i + 1;
        }
    }
    (string_of(out.as_slice()), depth)
}

proof fn lemma_strip_from_depth(s: Seq<char>, i: int, depth: nat, out: Seq<char>)
    requires
        0 <= i <= s.len(),
    ensures
        strip_from(s, i, depth, out).1 <= depth + s.len() - i,
    decreases s.len() - i,
{
    if i < s.len() {
        if depth == 0 && pair_at(s, i, '-', '-') {
        } else if pair_at(s, i, '/', '-') {
            lemma_strip_from_depth(s, i + 2, depth + 1, out);
        } else if depth > 0 && pair_at(s, i, '-', '/') {
            lemma_strip_from_depth(s, i + 2, (depth - 1) as nat, out);
        } else if depth == 0 {
            lemma_strip_from_depth(s, i + 1, depth, out.push(s[i]));
        } else {
            lemma_strip_from_depth(s, i + 1, depth, out);
        }
    }
}

/// Removes Lean comments line by line, carrying nested block comments from
/// one line into the next.
pub fn strip_comments_by_line(lines: &Vec<String>) -> (r: Vec<String>)
    requires
        total_len(views(lines@)) <= usize::MAX,
    ensures
        views(r@) == strip_lines(views(lines@), 0),
{
    let ghost ls = views(lines@);
    let mut out: Vec<String> = Vec::new();
    let mut depth: usize = 0;
    let mut k: usize = 0;
    assert(ls.skip(0) =~= ls);
    assert(views(out@) =~= Seq::<Seq<char>>::empty());
    while k < lines.len()
        invariant
            k <= lines@.len(),
            ls == views(lines@),
            total_len(ls) <= usize::MAX,
            depth <= total_len(ls.take(k as int)),
            strip_lines(ls, 0) == views(out@) + strip_lines(ls.skip(k as int), depth as nat),
        decreases lines@.len() - k,
    {
        let cs = chars_of(lines[k].as_str());
        proof {
            assert(ls[k as int] == lines@[k as int]@);
            assert(ls.take(k + 1).drop_last() =~= ls.take(k as int));
            lemma_total_len_take_mono(ls, k + 1, ls.len() as int);
            assert(ls.take(ls.len() as int) =~= ls);
        }
        let (line, d) = strip_line(&cs, depth);
        proof {
            let rest = ls.skip(k as int);
            assert(rest[0] == cs@);
            assert(rest.drop_first() =~= ls.skip(k + 1));
            let ghost prev = views(out@);
            assert(prev + (seq![line@] + strip_lines(ls.skip(k + 1), d as nat))
                =~= prev.push(line@) + strip_lines(ls.skip(k + 1), d as nat));
        }
        let ghost prev = views(out@);
        out.push(line);
        proof {
            assert(views(out@) =~= prev.push(line@));
        }
        depth = d;
        k = k + 1;
    }
    proof {
        assert(ls.skip(lines@.len() as int) =~= Seq::<Seq<char>>::empty());
        assert(views(out@) + Seq::<Seq<char>>::empty() =~= views(out@));
    }
    out
}


/// The keyword that opens an import line.
pub open spec fn import_keyword() -> Seq<char> {
    seq!['i', 'm', 'p', 'o', 'r', 't', ' ']
}

/// Module names an import line brings in: the words after `import ` once the
/// line is trimmed; none for any other line.
pub open spec fn line_imports(l: Seq<char>) -> Seq<Seq<char>> {
    let t = trim(l);
    if has_prefix(t, import_keyword()) {
        words(t.skip(7))
    } else {
        Seq::empty()
    }
}

/// Module names imported by all lines, in line order.
pub open spec fn imports_in(lines: Seq<Seq<char>>) -> Seq<Seq<char>>
    decreases lines.len(),
{
    if lines.len() == 0 {
        Seq::empty()
    } else {
        imports_in(lines.drop_last()) + line_imports(lines.last())
    }
}

/// The modules imported by (comment-free) lines, as an ordered set.
pub fn parse_imports(lines: &Vec<String>) -> (r: Vec<String>)
    ensures
        is_ordered_set(r@, imports_in(views(lines@)).to_set()),
{
    let kw_text = "import ";
    let kw = chars_of(kw_text);
    proof {
        reveal_strlit("import ");
        assert(kw@ =~= import_keyword());
    }
    let mut acc: Vec<String> = Vec::new();
    let mut k: usize = 0;
    while k < lines.len()
        invariant
            k <= lines@.len(),
            kw@ == import_keyword(),
            views(acc@) == imports_in(views(lines@).take(k as int)),
        decreases lines@.len() - k,
    {
        let t = trimmed(lines[k].as_str());
        let tc = chars_of(t.as_str());
        let ghost before = views(acc@);
        proof {
            assert(views(lines@).take(k + 1).drop_last() =~= views(lines@).take(k as int));
            assert(views(lines@).take(k + 1).last() == lines@[k as int]@);
        }
        if tc.len() >= 7 && seq_starts_with(&tc, &kw, 0) {
            let rest_chars = sub_chars(&tc, 7, tc.len());
            let rest = string_of(rest_chars.as_slice());
            let ws = split_words(rest.as_str());
            proof {
                assert(tc@.skip(7) =~= tc@.subrange(7, tc@.len() as int));
            }
            let mut j: usize = 0;
            while j < ws.len()
                invariant
                    j <= ws@.len(),
                    ws@.len() == words(rest@).len(),
                    forall|q: int| 0 <= q < ws@.len() ==> #[trigger] ws@[q]@ == words(rest@)[q],
                    views(acc@) == before + words(rest@).take(j as int),
                decreases ws@.len() - j,
            {
                let ghost prev = views(acc@);
                acc.push(ws[j].clone());
                proof {
                    assert(views(acc@) =~= prev.push(ws@[j as int]@));
                    assert(words(rest@).take(j + 1) =~= words(rest@).take(j as int).push(
                        words(rest@)[j as int],
                    ));
                    assert(before + words(rest@).take(j + 1) =~= (before + words(rest@).take(
                        j as int,
                    )).push(words(rest@)[j as int]));
                }
                j = j + 1;
            }
            proof {
                assert(words(rest@).take(ws@.len() as int) =~= words(rest@));
            }
        } else {
            proof {
                if tc@.len() >= 7 {
                    assert(!has_prefix(tc@, import_keyword()));
                }
                assert(before + Seq::<Seq<char>>::empty() =~= before);
            }
        }
        k = k + 1;
    }
    proof {
        assert(views(lines@).take(lines@.len() as int) =~= views(lines@));
    }
    sorted_unique(&acc)
}

/// The last dot-separated component of a name (all of it when it has no
/// dot), as `rsplit('.').next()` gives it.
pub open spec fn short_of(s: Seq<char>) -> Seq<char>
    decreases s.len(),
{
    if s.len() == 0 {
        s
    } else if s.last() == '.' {
        Seq::empty()
    } else {
        short_of(s.drop_last()).push(s.last())
    }
}

/// The last component of a qualified name.
pub fn short_name(qualified_name: &str) -> (r: String)
    ensures
        r@ == short_of(qualified_name@),
{
    let cs = chars_of(qualified_name);
    let mut p: usize = 0;
    let mut i: usize = 0;
    while i < cs.len()
        invariant
            i <= cs@.len(),
            p <= i,
            short_of(cs@.take(i as int)) == cs@.subrange(p as int, i as int),
        decreases cs@.len() - i,
    {
        proof {
            assert(cs@.take(i + 1).drop_last() =~= cs@.take(i as int));
        }
        if cs[i] == '.' {
            p = i + 1;
            proof {
                assert(cs@.subrange(p as int, i + 1) =~= Seq::<char>::empty());
            }
        } else {
            proof {
                assert(cs@.subrange(p as int, i + 1) =~= cs@.subrange(p as int, i as int).push(
                    cs@[i as int],
                ));
            }
        }
        i = i + 1;
    }
    assert(cs@.take(cs@.len() as int) =~= cs@);
    let tail = sub_chars(&cs, p, cs.len());
    string_of(tail.as_slice())
}

/// Characters that can continue a Lean name: ASCII letters and digits,
/// `_`, `'` and `.`.
pub open spec fn lean_name_char(c: char) -> bool {
    ||| ('a' <= c && c <= 'z')
    ||| ('A' <= c && c <= 'Z')
    ||| ('0' <= c && c <= '9')
    ||| c == '_'
    ||| c == '\''
    ||| c == '.'
}

/// Whether `c` can be part of a Lean name.
pub fn is_lean_name_char(c: char) -> (r: bool)
    ensures
        r == lean_name_char(c),
{
    ('a' <= c && c <= 'z') || ('A' <= c && c <= 'Z') || ('0' <= c && c <= '9') || c == '_' || c
        == '\'' || c == '.'
}

/// `s[start..end]` is not glued to a name character on either side.
pub open spec fn boundary_ok(s: Seq<char>, start: int, end: int) -> bool {
    &&& !(start > 0 && lean_name_char(s[start - 1]))
    &&& !(end < s.len() && lean_name_char(s[end]))
}

/// Whether `cs[start..end]` stands alone as a name token.
pub fn token_boundary(cs: &Vec<char>, start: usize, end: usize) -> (r: bool)
    requires
        start <= end <= cs@.len(),
    ensures
        r == boundary_ok(cs@, start as int, end as int),
{
    let before = start > 0 && is_lean_name_char(cs[start - 1]);
    let after = end < cs.len() && is_lean_name_char(cs[end]);
    !before && !after
}

/// First position at or after `from` where `t` occurs in `s`.
pub open spec fn first_occ(s: Seq<char>, t: Seq<char>, from: int) -> Option<int>
    decreases s.len() + 1 - from,
{
    if from < 0 || from + t.len() > s.len() {
        None
    } else if occurs_at(s, t, from) {
        Some(from)
    } else {
        first_occ(s, t, from + 1)
    }
}

/// A first occurrence found from `from` lies at or after `from` and is an
/// occurrence.
pub proof fn lemma_first_occ_bounds(s: Seq<char>, t: Seq<char>, from: int)
    ensures
        first_occ(s, t, from) matches Some(p) ==> from <= p && occurs_at(s, t, p),
    decreases s.len() + 1 - from,
{
    if !(from < 0 || from + t.len() > s.len()) && !occurs_at(s, t, from) {
        lemma_first_occ_bounds(s, t, from + 1);
    }
}

/// An occurrence at `i` with none between `from` and `i` is the first one.
pub proof fn lemma_first_occ_found(s: Seq<char>, t: Seq<char>, from: int, i: int)
    requires
        0 <= from <= i,
        occurs_at(s, t, i),
        forall|k: int| from <= k < i ==> !occurs_at(s, t, k),
    ensures
        first_occ(s, t, from) == Some(i),
    decreases i - from,
{
    if from < i {
        lemma_first_occ_found(s, t, from + 1, i);
    }
}

/// With no occurrence from `from` on, there is no first occurrence.
pub proof fn lemma_first_occ_none(s: Seq<char>, t: Seq<char>, from: int)
    requires
        0 <= from,
        forall|k: int| from <= k ==> !occurs_at(s, t, k),
    ensures
        first_occ(s, t, from) is None,
    decreases s.len() + 1 - from,
{
    if from + t.len() <= s.len() {
        lemma_first_occ_none(s, t, from + 1);
    }
}

/// Scan for `t` in `s` from `from` as `str::find` loops do, skipping past
/// each occurrence that is glued to a name: the first free-standing one.
pub open spec fn scan_token(s: Seq<char>, t: Seq<char>, from: int) -> Option<int>
    decreases s.len() - from,
{
    match first_occ(s, t, from) {
        None => None,
        Some(p) => {
            if boundary_ok(s, p, p + t.len()) {
                Some(p)
            } else if t.len() == 0 {
                None
            } else {
                proof {
                    lemma_first_occ_bounds(s, t, from);
                }
                scan_token(s, t, p + t.len())
            }
        },
    }
}

/// Where the first token of `tokens` (tried in order) that occurs free-standing
/// in `s` starts.
pub open spec fn first_token(s: Seq<char>, tokens: Seq<Seq<char>>) -> Option<int>
    decreases tokens.len(),
{
    if tokens.len() == 0 {
        None
    } else {
        match scan_token(s, tokens[0], 0) {
            Some(p) => Some(p),
            None => first_token(s, tokens.drop_first()),
        }
    }
}

/// Bytes taken by `c` in UTF-8.
pub open spec fn utf8_width(c: char) -> int {
    let u = c as u32;
    if u < 0x80 {
        1
    } else if u < 0x800 {
        2
    } else if u < 0x10000 {
        3
    } else {
        4
    }
}

/// UTF-8 encoding distributes over concatenation.
pub proof fn lemma_encode_concat(a: Seq<char>, b: Seq<char>)
    ensures
        vstd::utf8::encode_utf8(a + b) == vstd::utf8::encode_utf8(a) + vstd::utf8::encode_utf8(b),
    decreases a.len(),
{
    if a.len() > 0 {
        assert((a + b).drop_first() =~= a.drop_first() + b);
        lemma_encode_concat(a.drop_first(), b);
        assert((a + b)[0] == a[0]);
        assert(vstd::utf8::encode_utf8(a + b) =~= vstd::utf8::encode_utf8(a) + vstd::utf8::encode_utf8(b));
    }
}

/// A character takes `utf8_width` bytes in UTF-8.
pub proof fn lemma_encode_one(c: char)
    ensures
        vstd::utf8::encode_utf8(seq![c]).len() == utf8_width(c),
{
    assert(seq![c].drop_first() =~= Seq::<char>::empty());
    assert(seq![c][0] == c);
    assert(vstd::utf8::encode_utf8(Seq::<char>::empty()) =~= Seq::<u8>::empty());
    assert(vstd::utf8::encode_utf8(seq![c]) == vstd::utf8::encode_scalar(c as u32) + vstd::utf8::encode_utf8(seq![c].drop_first()));
    assert(vstd::utf8::encode_utf8(seq![c]) =~= vstd::utf8::encode_scalar(c as u32));
    let u = c as u32;
    assert(u <= 0xD7FF || (0xE000 <= u && u <= 0x10FFFF));
}

/// UTF-8 length of `s[..i]`, which is at most the UTF-8 length of `s`.
fn byte_offset(cs: &Vec<char>, i: usize, total: usize) -> (r: usize)
    requires
        i <= cs@.len(),
        total == vstd::utf8::encode_utf8(cs@).len(),
    ensures
        r == vstd::utf8::encode_utf8(cs@.take(i as int)).len(),
{
    let mut off: usize = 0;
    let mut j: usize = 0;
    while j < i
        invariant
            j <= i <= cs@.len(),
            total == vstd::utf8::encode_utf8(cs@).len(),
            off == vstd::utf8::encode_utf8(cs@.take(j as int)).len(),
        decreases i - j,
    {
        let c = cs[j];
        proof {
            assert(cs@.take(j + 1) =~= cs@.take(j as int) + seq![c]);
            lemma_encode_concat(cs@.take(j as int), seq![c]);
            lemma_encode_one(c);
            assert(cs@ =~= cs@.take(j + 1) + cs@.skip(j + 1));
            lemma_encode_concat(cs@.take(j + 1), cs@.skip(j + 1));
        }
        let u = c as u32;
        let w: usize = if u < 0x80 {
            1
        } else if u < 0x800 {
            2
        } else if u < 0x10000 {
            3
        } else {
            4
        };
        off = off + w;
        j = j + 1;
    }
    off
}

/// The 1-based byte column of the first free-standing occurrence of any
/// token, trying the tokens in order.
pub fn first_token_match(line: &str, tokens: &Vec<String>) -> (r: Option<usize>)
    requires
        forall|k: int| 0 <= k < tokens@.len() ==> #[trigger] tokens@[k]@.len() > 0,
    ensures
        r matches Some(col) ==> first_token(line@, views(tokens@)) matches Some(p) && col
            == vstd::utf8::encode_utf8(line@.take(p)).len() + 1,
        r is None ==> first_token(line@, views(tokens@)) is None,
{
    let cs = chars_of(line);
    let total = line.as_bytes().len();
    let mut k: usize = 0;
    assert(views(tokens@).skip(0) =~= views(tokens@));
    while k < tokens.len()
        invariant
            k <= tokens@.len(),
            cs@ == line@,
            total == vstd::utf8::encode_utf8(line@).len(),
            forall|q: int| 0 <= q < tokens@.len() ==> #[trigger] tokens@[q]@.len() > 0,
            first_token(line@, views(tokens@)) == first_token(line@, views(tokens@).skip(k as int)),
        decreases tokens@.len() - k,
    {
        let tc = chars_of(tokens[k].as_str());
        let ghost t = tc@;
        proof {
            assert(views(tokens@).skip(k as int)[0] == t);
            assert(views(tokens@).skip(k as int).drop_first() =~= views(tokens@).skip(k + 1));
            assert(t.len() > 0);
        }
        let mut start: usize = 0;
        let mut found: Option<usize> = None;
        loop
            invariant
                start <= cs@.len(),
                cs@ == line@,
                tc@ == t,
                t.len() > 0,
                scan_token(cs@, t, 0) == scan_token(cs@, t, start as int),
            ensures
                found matches Some(p) ==> scan_token(cs@, t, 0) == Some(p as int) && p + t.len() <= cs@.len(),
                found is None ==> scan_token(cs@, t, 0) is None,
            decreases cs@.len() - start,
        {
            match find_from(&cs, &tc, start) {
                None => {
                    proof {
                        lemma_first_occ_none(cs@, t, start as int);
                    }
                    found = None;
                    break ;
                },
                Some(p) => {
                    proof {
                        lemma_first_occ_found(cs@, t, start as int, p as int);
                    }
                    let end = p + tc.len();
                    if token_boundary(&cs, p, end) {
                        found = Some(p);
                        break ;
                    }
                    start = end;
                },
            }
        }
        match found {
            Some(p) => {
                let col = byte_offset(&cs, p, total);
                proof {
                    let tk = views(tokens@).skip(k as int);
                    assert(cs@ =~= cs@.take(p + t.len()) + cs@.skip(p + t.len()));
                    assert(cs@.take(p + t.len()) =~= cs@.take(p as int) + cs@.subrange(p as int, p + t.len()));
                    lemma_encode_concat(cs@.take(p + t.len()), cs@.skip(p + t.len()));
                    lemma_encode_concat(cs@.take(p as int), cs@.subrange(p as int, p + t.len()));
                    assert(cs@.subrange(p as int, p + t.len()) =~= seq![cs@[p as int]] + cs@.subrange(p + 1, p + t.len()));
                    lemma_encode_concat(seq![cs@[p as int]], cs@.subrange(p + 1, p + t.len()));
                    lemma_encode_one(cs@[p as int]);
                }
                return Some(col + 1);
            },
            None => {},
        }
        k = k + 1;
    }
    None
}
} // verus!
