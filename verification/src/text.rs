//! Character-level text model shared by the parsers and renderers.
//!
//! Strings are modelled by their `Seq<char>` view; the executable helpers
//! below work on `Vec<char>` copies and rebuild `String` values char by char.
use vstd::prelude::*;

verus! {

/// Unicode `White_Space` characters, as `char::is_whitespace` and `str::trim` use them.
pub open spec fn is_ws(c: char) -> bool {
    ||| ('\u{9}' <= c && c <= '\u{d}')
    ||| c == ' '
    ||| c == '\u{85}'
    ||| c == '\u{a0}'
    ||| c == '\u{1680}'
    ||| ('\u{2000}' <= c && c <= '\u{200a}')
    ||| c == '\u{2028}'
    ||| c == '\u{2029}'
    ||| c == '\u{202f}'
    ||| c == '\u{205f}'
    ||| c == '\u{3000}'
}

/// Unicode general category `Cc`, as `char::is_control` uses it.
pub open spec fn is_control(c: char) -> bool {
    c <= '\u{1f}' || ('\u{7f}' <= c && c <= '\u{9f}')
}

pub open spec fn is_ascii_lower(c: char) -> bool {
    'a' <= c && c <= 'z'
}

pub open spec fn is_ascii_upper(c: char) -> bool {
    'A' <= c && c <= 'Z'
}

pub open spec fn is_ascii_digit(c: char) -> bool {
    '0' <= c && c <= '9'
}

pub open spec fn is_ascii_alnum(c: char) -> bool {
    is_ascii_lower(c) || is_ascii_upper(c) || is_ascii_digit(c)
}

/// `char::to_ascii_lowercase`.
pub open spec fn lower_char(c: char) -> char {
    if is_ascii_upper(c) {
        ((c as u32) + 32) as char
    } else {
        c
    }
}

/// `str::to_ascii_lowercase`.
pub open spec fn lower(s: Seq<char>) -> Seq<char> {
    Seq::new(s.len(), |i: int| lower_char(s[i]))
}

/// The leading run of whitespace removed (`str::trim_start`).
pub open spec fn trim_start(s: Seq<char>) -> Seq<char>
    decreases s.len(),
{
    if s.len() > 0 && is_ws(s[0]) {
        trim_start(s.drop_first())
    } else {
        s
    }
}

/// The trailing run of whitespace removed (`str::trim_end`).
pub open spec fn trim_end(s: Seq<char>) -> Seq<char>
    decreases s.len(),
{
    if s.len() > 0 && is_ws(s.last()) {
        trim_end(s.drop_last())
    } else {
        s
    }
}

/// `str::trim`.
pub open spec fn trim(s: Seq<char>) -> Seq<char> {
    trim_end(trim_start(s))
}

/// `pat` occurs in `s` at position `i`.
pub open spec fn occurs_at(s: Seq<char>, pat: Seq<char>, i: int) -> bool {
    0 <= i && i + pat.len() <= s.len() && s.subrange(i, i + pat.len()) == pat
}

/// `str::contains` for a string pattern.
pub open spec fn contains(s: Seq<char>, pat: Seq<char>) -> bool {
    exists|i: int| occurs_at(s, pat, i)
}

/// `str::starts_with`.
pub open spec fn starts_with(s: Seq<char>, p: Seq<char>) -> bool {
    p.len() <= s.len() && s.take(p.len() as int) == p
}

/// `str::ends_with`.
pub open spec fn ends_with(s: Seq<char>, p: Seq<char>) -> bool {
    p.len() <= s.len() && s.skip(s.len() - p.len()) == p
}

/// Some element of `pats` occurs in `s`.
pub open spec fn contains_any(s: Seq<char>, pats: Seq<Seq<char>>) -> bool {
    exists|k: int| 0 <= k < pats.len() && contains(s, #[trigger] pats[k])
}

/// `parts` joined by `sep`, as `[String]::join` builds it.
pub open spec fn join(parts: Seq<Seq<char>>, sep: Seq<char>) -> Seq<char>
    decreases parts.len(),
{
    if parts.len() == 0 {
        Seq::empty()
    } else if parts.len() == 1 {
        parts[0]
    } else {
        join(parts.drop_last(), sep) + sep + parts.last()
    }
}

/// The views of a vector of strings.
pub open spec fn views(v: Seq<String>) -> Seq<Seq<char>> {
    Seq::new(v.len(), |i: int| v[i]@)
}

/// Every character of `s` is ASCII.
pub open spec fn all_ascii(s: Seq<char>) -> bool {
    forall|i: int| 0 <= i < s.len() ==> (s[i] as u32) < 128
}

/// The characters of a string, in order.
pub fn chars_of(s: &str) -> (v: Vec<char>)
    ensures
        v@ == s@,
{
    let mut v: Vec<char> = Vec::new();
    for c in it: s.chars()
        invariant
            v@ == it.seq().take(it.index() as int),
            it.seq() == s@,
    {
        v.push(c);
    }
    v
}

/// Appends one character (`String::push`).
#[verifier::external_body]
pub fn push_char(s: &mut String, c: char)
    ensures
        final(s)@ == old(s)@.push(c),
{
    s.push(c);
}

/// Appends a string slice (`String::push_str`).
#[verifier::external_body]
pub fn push_str(s: &mut String, t: &str)
    ensures
        final(s)@ == old(s)@ + t@,
{
    s.push_str(t);
}

/// Appends characters to a string.
pub fn push_chars(s: &mut String, v: &[char])
    ensures
        final(s)@ == old(s)@ + v@,
{
    let ghost start = s@;
    for i in 0..v.len()
        invariant
            s@ == start + v@.take(i as int),
    {
        push_char(s, v[i]);
        assert(v@.take(i + 1) == v@.take(i as int).push(v@[i as int]));
    }
    assert(v@.take(v.len() as int) == v@);
}

/// A string made of the given characters.
pub fn string_of(v: &[char]) -> (s: String)
    ensures
        s@ == v@,
{
    let mut s = String::new();
    push_chars(&mut s, v);
    s
}

/// A fresh copy of a string slice.
pub fn owned(t: &str) -> (s: String)
    ensures
        s@ == t@,
{
    let mut s = String::new();
    push_str(&mut s, t);
    s
}

/// Two character sequences are equal.
pub fn chars_eq(a: &[char], b: &[char]) -> (r: bool)
    ensures
        r == (a@ == b@),
{
    if a.len() != b.len() {
        return false;
    }
    for i in 0..a.len()
        invariant
            a@.len() == b@.len(),
            forall|j: int| 0 <= j < i ==> a@[j] == b@[j],
    {
        if a[i] != b[i] {
            return false;
        }
    }
    assert(a@ == b@);
    true
}

/// Two string slices hold the same characters.
pub fn str_eq(a: &str, b: &str) -> (r: bool)
    ensures
        r == (a@ == b@),
{
    let x = chars_of(a);
    let y = chars_of(b);
    chars_eq(x.as_slice(), y.as_slice())
}

/// `s[i..]` starts with `p`.
pub fn occurs_at_exec(s: &[char], p: &[char], i: usize) -> (r: bool)
    ensures
        r == occurs_at(s@, p@, i as int),
{
    if i > s.len() || p.len() > s.len() - i {
        return false;
    }
    for k in 0..p.len()
        invariant
            i + p@.len() <= s@.len(),
            p@.len() == p.len(),
            s@.len() == s.len(),
            forall|j: int| 0 <= j < k ==> s@[i + j] == p@[j],
    {
        if s[i + k] != p[k] {
            assert(s@.subrange(i as int, i + p@.len())[k as int] != p@[k as int]);
            return false;
        }
    }
    assert(s@.subrange(i as int, i + p@.len()) == p@);
    true
}

/// `str::starts_with` on characters.
pub fn starts_with_exec(s: &[char], p: &[char]) -> (r: bool)
    ensures
        r == starts_with(s@, p@),
{
    let r = occurs_at_exec(s, p, 0);
    proof {
        if p@.len() <= s@.len() {
            assert(s@.subrange(0, p@.len() as int) == s@.take(p@.len() as int));
        }
    }
    r
}

/// `str::ends_with` on characters.
pub fn ends_with_exec(s: &[char], p: &[char]) -> (r: bool)
    ensures
        r == ends_with(s@, p@),
{
    if p.len() > s.len() {
        return false;
    }
    let r = occurs_at_exec(s, p, s.len() - p.len());
    assert(s@.subrange(s@.len() - p@.len(), s@.len() as int) == s@.skip(s@.len() - p@.len()));
    r
}

/// The first position at which `p` occurs in `s`, if any.
pub fn find_exec(s: &[char], p: &[char]) -> (r: Option<usize>)
    ensures
        r matches Some(i) ==> occurs_at(s@, p@, i as int) && forall|j: int|
            0 <= j < i ==> !occurs_at(s@, p@, j),
        r is None ==> !contains(s@, p@),
{
    if p.len() > s.len() {
        assert forall|j: int| !occurs_at(s@, p@, j) by {}
        return None;
    }
    let last = s.len() - p.len();
    let mut i: usize = 0;
    while i <= last
        invariant
            last + p@.len() == s@.len(),
            forall|j: int| 0 <= j < i ==> !occurs_at(s@, p@, j),
        decreases last + 1 - i,
    {
        if occurs_at_exec(s, p, i) {
            return Some(i);
        }
        if i == last {
            assert forall|j: int| !occurs_at(s@, p@, j) by {
                if 0 <= j && j + p@.len() <= s@.len() {
                    assert(j <= i);
                }
            }
            return None;
        }
        i = i + 1;
    }
    None
}

/// `str::contains` on characters.
pub fn contains_exec(s: &[char], p: &[char]) -> (r: bool)
    ensures
        r == contains(s@, p@),
{
    match find_exec(s, p) {
        Some(_) => true,
        None => false,
    }
}

/// `char::is_whitespace`.
pub fn is_ws_exec(c: char) -> (r: bool)
    ensures
        r == is_ws(c),
{
    ('\u{9}' <= c && c <= '\u{d}') || c == ' ' || c == '\u{85}' || c == '\u{a0}' || c
        == '\u{1680}' || ('\u{2000}' <= c && c <= '\u{200a}') || c == '\u{2028}' || c
        == '\u{2029}' || c == '\u{202f}' || c == '\u{205f}' || c == '\u{3000}'
}

/// `char::is_control`.
pub fn is_control_exec(c: char) -> (r: bool)
    ensures
        r == is_control(c),
{
    c <= '\u{1f}' || ('\u{7f}' <= c && c <= '\u{9f}')
}

/// `char::to_ascii_lowercase`.
pub fn lower_char_exec(c: char) -> (r: char)
    ensures
        r == lower_char(c),
{
    if 'A' <= c && c <= 'Z' {
        let b = (c as u8) + 32;
        proof {
            assert((c as u32) < 128);
        }
        b as char
    } else {
        c
    }
}

/// `str::to_ascii_lowercase` on characters.
pub fn lower_exec(s: &[char]) -> (r: Vec<char>)
    ensures
        r@ == lower(s@),
{
    let mut r: Vec<char> = Vec::new();
    for i in 0..s.len()
        invariant
            r@.len() == i,
            forall|j: int| 0 <= j < i ==> r@[j] == lower_char(s@[j]),
    {
        r.push(lower_char_exec(s[i]));
    }
    assert(r@ == lower(s@));
    r
}

/// `parts` joined by `sep` (`[String]::join`).
pub fn join_strings(parts: &Vec<String>, sep: &str) -> (r: String)
    ensures
        r@ == join(views(parts@), sep@),
{
    let mut r = String::new();
    let ghost all = views(parts@);
    for i in 0..parts.len()
        invariant
            all == views(parts@),
            r@ == join(all.take(i as int), sep@),
    {
        assert(all.take(i + 1).drop_last() == all.take(i as int));
        if i > 0 {
            push_str(&mut r, sep);
        }
        push_str(&mut r, parts[i].as_str());
        assert(all.take(i + 1).last() == parts@[i as int]@);
    }
    assert(all.take(parts.len() as int) == all);
    r
}

/// The strings of `s` other than `w`, in order.
pub open spec fn without(s: Seq<Seq<char>>, w: Seq<char>) -> Seq<Seq<char>>
    decreases s.len(),
{
    if s.len() == 0 {
        Seq::empty()
    } else if s.last() == w {
        without(s.drop_last(), w)
    } else {
        without(s.drop_last(), w).push(s.last())
    }
}

/// `s` holds `w`.
pub open spec fn has(s: Seq<Seq<char>>, w: Seq<char>) -> bool {
    exists|i: int| 0 <= i < s.len() && s[i] == w
}

proof fn lemma_trim_start(s: Seq<char>, a: int)
    requires
        0 <= a <= s.len(),
        forall|i: int| 0 <= i < a ==> is_ws(s[i]),
        a == s.len() || !is_ws(s[a]),
    ensures
        trim_start(s) == s.skip(a),
    decreases a,
{
    if a == 0 {
        assert(s.skip(0) == s);
    } else {
        assert(s.drop_first().skip(a - 1) == s.skip(a));
        lemma_trim_start(s.drop_first(), a - 1);
    }
}

proof fn lemma_trim_end(t: Seq<char>, b: int)
    requires
        0 <= b <= t.len(),
        forall|i: int| b <= i < t.len() ==> is_ws(t[i]),
        b == 0 || !is_ws(t[b - 1]),
    ensures
        trim_end(t) == t.take(b),
    decreases t.len() - b,
{
    if b == t.len() {
        assert(t.take(b) == t);
    } else {
        assert(t.drop_last().take(b) == t.take(b));
        lemma_trim_end(t.drop_last(), b);
    }
}

/// `str::trim` on characters.
pub fn trim_exec(s: &[char]) -> (r: Vec<char>)
    ensures
        r@ == trim(s@),
{
    let n = s.len();
    let mut a: usize = 0;
    while a < n && is_ws_exec(s[a])
        invariant
            a <= n == s@.len(),
            forall|i: int| 0 <= i < a ==> is_ws(s@[i]),
        decreases n - a,
    {
        a += 1;
    }
    let mut b: usize = n;
    while b > a && is_ws_exec(s[b - 1])
        invariant
            a <= b <= n == s@.len(),
            forall|i: int| b <= i < n ==> is_ws(s@[i]),
        decreases b,
    {
        b -= 1;
    }
    proof {
        lemma_trim_start(s@, a as int);
        let t = s@.skip(a as int);
        if b > a {
            assert(!is_ws(t[b - a - 1]));
        }
        lemma_trim_end(t, b - a);
        assert(t.take(b - a) == s@.subrange(a as int, b as int));
    }
    let mut r: Vec<char> = Vec::new();
    let mut i = a;
    while i < b
        invariant
            a <= i <= b <= n == s@.len(),
            r@ == s@.subrange(a as int, i as int),
        decreases b - i,
    {
        r.push(s[i]);
        assert(s@.subrange(a as int, i + 1) == s@.subrange(a as int, i as int).push(s@[i as int]));
        i += 1;
    }
    r
}

/// A trimmed copy of a string.
pub fn trim_str(s: &str) -> (r: String)
    ensures
        r@ == trim(s@),
{
    let c = chars_of(s);
    let t = trim_exec(c.as_slice());
    string_of(t.as_slice())
}

/// `s[from..to]` as a vector.
pub fn slice_chars(s: &[char], from: usize, to: usize) -> (r: Vec<char>)
    requires
        from <= to <= s@.len(),
    ensures
        r@ == s@.subrange(from as int, to as int),
{
    let mut r: Vec<char> = Vec::new();
    let mut i = from;
    while i < to
        invariant
            from <= i <= to <= s@.len(),
            r@ == s@.subrange(from as int, i as int),
        decreases to - i,
    {
        r.push(s[i]);
        assert(s@.subrange(from as int, i + 1) == s@.subrange(from as int, i as int).push(s@[i as int]));
        i += 1;
    }
    r
}

/// Each string with `p` in front of it.
pub open spec fn prefixed(parts: Seq<Seq<char>>, p: Seq<char>) -> Seq<Seq<char>> {
    Seq::new(parts.len(), |i: int| p + parts[i])
}

/// The strings of `parts`, each after `prefix`, joined by `sep`.
pub fn join_prefixed(parts: &Vec<String>, prefix: &str, sep: &str) -> (r: String)
    ensures
        r@ == join(prefixed(views(parts@), prefix@), sep@),
{
    let mut r = String::new();
    let ghost all = prefixed(views(parts@), prefix@);
    for i in 0..parts.len()
        invariant
            all == prefixed(views(parts@), prefix@),
            r@ == join(all.take(i as int), sep@),
    {
        assert(all.take(i + 1).drop_last() == all.take(i as int));
        if i > 0 {
            push_str(&mut r, sep);
        }
        push_str(&mut r, prefix);
        push_str(&mut r, parts[i].as_str());
        assert(all.take(i + 1).last() == prefix@ + parts@[i as int]@);
    }
    assert(all.take(parts.len() as int) == all);
    r
}

/// The text that UTF-8 `bytes` encode, when they are valid UTF-8
/// (`std::str::from_utf8`, which accepts exactly the valid encodings).
#[verifier::external_body]
pub fn utf8_text(bytes: &[u8]) -> (r: Option<String>)
    ensures
        r is Some <==> vstd::utf8::valid_utf8(bytes@),
        r matches Some(s) ==> s@ == vstd::utf8::decode_utf8(bytes@),
{
    std::str::from_utf8(bytes).ok().map(|text| text.to_string())
}

/// What `String::from_utf8_lossy` decodes from `bytes`.
pub uninterp spec fn lossy_text(bytes: Seq<u8>) -> Seq<char>;

/// The text of `bytes` with every invalid UTF-8 sequence replaced by
/// U+FFFD (`String::from_utf8_lossy`).  The contract names the outcome,
/// a function of the bytes, and states what the documentation gives for
/// valid UTF-8: the text those bytes encode.  How invalid sequences are
/// replaced is left unsaid.
#[verifier::external_body]
pub fn utf8_lossy(bytes: &[u8]) -> (r: String)
    ensures
        r@ == lossy_text(bytes@),
        vstd::utf8::valid_utf8(bytes@) ==> r@ == vstd::utf8::decode_utf8(bytes@),
{
    String::from_utf8_lossy(bytes).into_owned()
}

/// `s` with `p` removed from its front, when it starts with `p`.
pub open spec fn strip_prefix(s: Seq<char>, p: Seq<char>) -> Option<Seq<char>> {
    if starts_with(s, p) {
        Some(s.skip(p.len() as int))
    } else {
        None
    }
}

/// `s` with `p` removed from its end, when it ends with `p`.
pub open spec fn strip_suffix(s: Seq<char>, p: Seq<char>) -> Option<Seq<char>> {
    if ends_with(s, p) {
        Some(s.take(s.len() - p.len()))
    } else {
        None
    }
}

/// The first position of `p` in `s`.
pub open spec fn first_index(s: Seq<char>, p: Seq<char>) -> int
    recommends
        contains(s, p),
{
    choose|i: int| occurs_at(s, p, i) && forall|j: int| 0 <= j < i ==> !occurs_at(s, p, j)
}

/// `str::split_once`: the parts before and after the first `p`.
pub open spec fn split_once(s: Seq<char>, p: Seq<char>) -> Option<(Seq<char>, Seq<char>)> {
    if contains(s, p) {
        let i = first_index(s, p);
        Some((s.take(i), s.skip(i + p.len())))
    } else {
        None
    }
}

/// `str::split_once` on characters.
pub fn split_once_exec(s: &[char], p: &[char]) -> (r: Option<(Vec<char>, Vec<char>)>)
    ensures
        match r {
            Some((a, b)) => split_once(s@, p@) == Some((a@, b@)),
            None => split_once(s@, p@) is None,
        },
{
    match find_exec(s, p) {
        None => None,
        Some(i) => {
            proof {
                let j = first_index(s@, p@);
                assert(occurs_at(s@, p@, i as int));
                assert(occurs_at(s@, p@, j) && forall|k: int| 0 <= k < j ==> !occurs_at(s@, p@, k));
                if j < i {
                } else if i < j {
                }
                assert(j == i);
            }
            assert(i + p@.len() <= s@.len());
            assert(p@.len() == p.len());
            assert(s@.len() == s.len());
            assert((i as int) + (p.len() as int) <= (s.len() as int));
            let a = slice_chars(s, 0, i);
            let b = slice_chars(s, i + p.len(), s.len());
            assert(a@ == s@.take(i as int));
            assert(b@ == s@.skip(i + p@.len()));
            Some((a, b))
        },
    }
}

/// `str::strip_prefix` on characters.
pub fn strip_prefix_exec(s: &[char], p: &[char]) -> (r: Option<Vec<char>>)
    ensures
        match r {
            Some(t) => strip_prefix(s@, p@) == Some(t@),
            None => strip_prefix(s@, p@) is None,
        },
{
    if starts_with_exec(s, p) {
        let t = slice_chars(s, p.len(), s.len());
        assert(t@ == s@.skip(p@.len() as int));
        Some(t)
    } else {
        None
    }
}

/// `s` without one trailing `\r`.
pub open spec fn strip_cr(s: Seq<char>) -> Seq<char> {
    if s.len() > 0 && s.last() == '\r' {
        s.drop_last()
    } else {
        s
    }
}

/// The pieces of `s` between `\n` characters, ignoring the empty piece
/// after a final `\n`.
pub open spec fn line_pieces(s: Seq<char>) -> Seq<Seq<char>>
    decreases s.len(),
{
    if s.len() == 0 {
        Seq::empty()
    } else {
        let pre = line_pieces(s.drop_last());
        let c = s.last();
        let ended = s.len() == 1 || s[s.len() - 2] == '\n';
        if ended {
            if c == '\n' {
                pre.push(Seq::empty())
            } else {
                pre.push(seq![c])
            }
        } else if c == '\n' {
            pre
        } else {
            pre.update(pre.len() - 1, pre.last().push(c))
        }
    }
}

/// `str::lines`: the lines of `s`, each without its `\n` or `\r\n`.
pub open spec fn lines(s: Seq<char>) -> Seq<Seq<char>> {
    let p = line_pieces(s);
    Seq::new(
        p.len(),
        |i: int|
            if i + 1 < p.len() || (s.len() > 0 && s.last() == '\n') {
                strip_cr(p[i])
            } else {
                p[i]
            },
    )
}

pub proof fn lemma_line_pieces_nonempty(s: Seq<char>)
    ensures
        s.len() > 0 ==> line_pieces(s).len() > 0,
    decreases s.len(),
{
    if s.len() > 0 {
        lemma_line_pieces_nonempty(s.drop_last());
    }
}

/// The lines of a text (`str::lines`).
pub fn lines_exec(s: &[char]) -> (r: Vec<Vec<char>>)
    ensures
        r@.len() == lines(s@).len(),
        forall|i: int| 0 <= i < r@.len() ==> #[trigger] r@[i]@ == lines(s@)[i],
{
    let mut pieces: Vec<Vec<char>> = Vec::new();
    let mut i: usize = 0;
    while i < s.len()
        invariant
            i <= s@.len(),
            pieces@.len() == line_pieces(s@.take(i as int)).len(),
            forall|k: int| 0 <= k < pieces@.len() ==> #[trigger] pieces@[k]@ == line_pieces(s@.take(i as int))[k],
        decreases s.len() - i,
    {
        let ghost t = s@.take(i + 1);
        assert(t.drop_last() == s@.take(i as int));
        assert(t.last() == s@[i as int]);
        let c = s[i];
        let ended = i == 0 || s[i - 1] == '\n';
        assert(ended == (t.len() == 1 || t[t.len() - 2] == '\n'));
        if ended {
            let mut w: Vec<char> = Vec::new();
            if c != '\n' {
                w.push(c);
            }
            assert(w@ == if c == '\n' { Seq::<char>::empty() } else { seq![c] });
            pieces.push(w);
        } else if c != '\n' {
            proof {
                lemma_line_pieces_nonempty(s@.take(i as int));
            }
            let last = pieces.len() - 1;
            let mut w = pieces.pop().unwrap();
            w.push(c);
            pieces.push(w);
            assert(pieces@.len() == last + 1);
        }
        i += 1;
    }
    assert(s@.take(s@.len() as int) == s@);
    let mut r: Vec<Vec<char>> = Vec::new();
    let ended = s.len() > 0 && s[s.len() - 1] == '\n';
    for k in 0..pieces.len()
        invariant
            pieces@.len() == line_pieces(s@).len(),
            forall|j: int| 0 <= j < pieces@.len() ==> #[trigger] pieces@[j]@ == line_pieces(s@)[j],
            r@.len() == k,
            ended == (s@.len() > 0 && s@.last() == '\n'),
            forall|j: int| 0 <= j < k ==> #[trigger] r@[j]@ == lines(s@)[j],
    {
        let p = pieces[k].as_slice();
        let strip = k + 1 < pieces.len() || ended;
        let q = if strip && p.len() > 0 && p[p.len() - 1] == '\r' {
            slice_chars(p, 0, p.len() - 1)
        } else {
            slice_chars(p, 0, p.len())
        };
        assert(p@.len() > 0 ==> p@.subrange(0, p@.len() - 1) == p@.drop_last());
        assert(p@.subrange(0, p@.len() as int) == p@);
        r.push(q);
    }
    r
}

/// The non-overlapping occurrences of `p` in `s` from position `i` on,
/// found left to right (`str::match_indices`).
pub open spec fn count_from(s: Seq<char>, p: Seq<char>, i: int) -> nat
    decreases s.len() - i,
{
    if p.len() == 0 || i < 0 || i + p.len() > s.len() {
        0
    } else if occurs_at(s, p, i) {
        1 + count_from(s, p, i + p.len())
    } else {
        count_from(s, p, i + 1)
    }
}

/// `s` with every non-overlapping occurrence of `p` from position `i` on,
/// found left to right, replaced by `q` (`str::replace`).
pub open spec fn replace_from(s: Seq<char>, p: Seq<char>, q: Seq<char>, i: int) -> Seq<char>
    decreases s.len() - i,
{
    if i < 0 || i >= s.len() {
        Seq::empty()
    } else if p.len() > 0 && occurs_at(s, p, i) {
        q + replace_from(s, p, q, i + p.len())
    } else {
        seq![s[i]] + replace_from(s, p, q, i + 1)
    }
}

/// `str::replace` for a non-empty pattern.
pub fn replace_exec(s: &[char], p: &[char], q: &[char]) -> (r: Vec<char>)
    requires
        p@.len() > 0,
    ensures
        r@ == replace_from(s@, p@, q@, 0),
{
    let mut r: Vec<char> = Vec::new();
    let mut i: usize = 0;
    while i < s.len()
        invariant
            p@.len() > 0,
            i <= s@.len(),
            r@ + replace_from(s@, p@, q@, i as int) == replace_from(s@, p@, q@, 0),
        decreases s.len() - i,
    {
        if occurs_at_exec(s, p, i) {
            let ghost before = r@;
            let mut qq = slice_chars(q, 0, q.len());
            assert(q@.subrange(0, q@.len() as int) == q@);
            r.append(&mut qq);
            assert(r@ + replace_from(s@, p@, q@, i + p@.len()) == before + replace_from(s@, p@, q@, i as int));
            i = i + p.len();
        } else {
            let ghost before = r@;
            r.push(s[i]);
            assert(r@ + replace_from(s@, p@, q@, i + 1) == before + replace_from(s@, p@, q@, i as int));
            i = i + 1;
        }
    }
    assert(replace_from(s@, p@, q@, i as int) == Seq::<char>::empty());
    assert(r@ + Seq::<char>::empty() == r@);
    r
}

/// `str::match_indices(p).count()` for a non-empty pattern; 0 for an empty one.
pub fn count_exec(s: &[char], p: &[char]) -> (r: usize)
    ensures
        r == count_from(s@, p@, 0),
{
    if p.len() == 0 {
        return 0;
    }
    let mut n: usize = 0;
    let mut i: usize = 0;
    while i < s.len() && p.len() <= s.len() - i
        invariant
            p@.len() > 0,
            i <= s@.len(),
            n <= i,
            n + count_from(s@, p@, i as int) == count_from(s@, p@, 0),
        decreases s.len() - i,
    {
        if occurs_at_exec(s, p, i) {
            n = n + 1;
            i = i + p.len();
        } else {
            i = i + 1;
        }
    }
    assert(count_from(s@, p@, i as int) == 0);
    n
}

/// `a` comes before `b` in the order of `String`'s `Ord`: code point by
/// code point, a proper prefix first.
pub open spec fn lex_lt(a: Seq<char>, b: Seq<char>) -> bool
    decreases a.len(),
{
    if a.len() == 0 {
        b.len() > 0
    } else if b.len() == 0 {
        false
    } else if a[0] != b[0] {
        (a[0] as int) < (b[0] as int)
    } else {
        lex_lt(a.drop_first(), b.drop_first())
    }
}

/// Each string comes before every later one.
pub open spec fn strictly_sorted(s: Seq<Seq<char>>) -> bool {
    forall|i: int, j: int| 0 <= i < j < s.len() ==> lex_lt(s[i], s[j])
}

pub proof fn lemma_lex_irreflexive(a: Seq<char>)
    ensures
        !lex_lt(a, a),
    decreases a.len(),
{
    if a.len() > 0 {
        lemma_lex_irreflexive(a.drop_first());
    }
}

pub proof fn lemma_lex_transitive(a: Seq<char>, b: Seq<char>, c: Seq<char>)
    requires
        lex_lt(a, b),
        lex_lt(b, c),
    ensures
        lex_lt(a, c),
    decreases a.len(),
{
    if a.len() > 0 && b.len() > 0 && c.len() > 0 && a[0] == b[0] && b[0] == c[0] {
        lemma_lex_transitive(a.drop_first(), b.drop_first(), c.drop_first());
    }
}

pub proof fn lemma_lex_total(a: Seq<char>, b: Seq<char>)
    requires
        a != b,
    ensures
        lex_lt(a, b) || lex_lt(b, a),
    decreases a.len(),
{
    if a.len() == 0 && b.len() == 0 {
        assert(a =~= b);
    } else if a.len() > 0 && b.len() > 0 && a[0] == b[0] {
        if a.drop_first() =~= b.drop_first() {
            assert(a =~= b) by {
                assert forall|i: int| 0 <= i < a.len() implies a[i] == b[i] by {
                    if i > 0 {
                        assert(a[i] == a.drop_first()[i - 1]);
                        assert(b[i] == b.drop_first()[i - 1]);
                    }
                }
            }
        }
        lemma_lex_total(a.drop_first(), b.drop_first());
    } else if a.len() > 0 && b.len() > 0 {
        assert((a[0] as int) < (b[0] as int) || (b[0] as int) < (a[0] as int));
    }
}

/// Whether `a` comes before `b` (`<` on strings).
pub fn lex_lt_exec(a: &[char], b: &[char]) -> (r: bool)
    ensures
        r == lex_lt(a@, b@),
{
    let mut i: usize = 0;
    assert(a@.skip(0) =~= a@);
    assert(b@.skip(0) =~= b@);
    while i < a.len() && i < b.len()
        invariant
            i <= a@.len(),
            i <= b@.len(),
            lex_lt(a@, b@) == lex_lt(a@.skip(i as int), b@.skip(i as int)),
        decreases a.len() - i,
    {
        assert(a@.skip(i as int)[0] == a@[i as int]);
        assert(b@.skip(i as int)[0] == b@[i as int]);
        if a[i] != b[i] {
            return a[i] < b[i];
        }
        assert(a@.skip(i as int).drop_first() == a@.skip(i + 1));
        assert(b@.skip(i as int).drop_first() == b@.skip(i + 1));
        i = i + 1;
    }
    i == a.len() && i < b.len()
}

/// Adds `k` to a strictly sorted list of strings, in its place, unless it
/// is there already.
pub fn sorted_insert(v: &mut Vec<String>, k: &[char])
    requires
        strictly_sorted(views(old(v)@)),
    ensures
        strictly_sorted(views(final(v)@)),
        forall|x: Seq<char>| views(final(v)@).contains(x) <==> (views(old(v)@).contains(x) || x == k@),
{
    let ghost o = views(v@);
    let mut p: usize = 0;
    while p < v.len()
        invariant
            views(v@) == o,
            strictly_sorted(o),
            p <= o.len(),
            forall|j: int| 0 <= j < p ==> lex_lt(#[trigger] o[j], k@),
        ensures
            views(v@) == o,
            p <= o.len(),
            forall|j: int| 0 <= j < p ==> lex_lt(#[trigger] o[j], k@),
            p < o.len() ==> !lex_lt(o[p as int], k@),
        decreases v.len() - p,
    {
        let c = chars_of(v[p].as_str());
        assert(c@ == o[p as int]);
        if !lex_lt_exec(c.as_slice(), k) {
            break;
        }
        p = p + 1;
    }
    if p < v.len() {
        let c = chars_of(v[p].as_str());
        if chars_eq(c.as_slice(), k) {
            assert(o[p as int] == k@);
            return;
        }
        proof {
            lemma_lex_total(o[p as int], k@);
        }
    }
    assert(p < o.len() ==> lex_lt(k@, o[p as int]));
    v.insert(p, string_of(k));
    let ghost n = views(v@);
    assert(n =~= o.insert(p as int, k@));
    assert forall|i: int, j: int| 0 <= i < j < n.len() implies lex_lt(n[i], n[j]) by {
        if j < p {
        } else if j == p {
        } else if i < p {
            if j - 1 > p {
                lemma_lex_transitive(k@, o[p as int], o[j - 1]);
            }
            lemma_lex_transitive(o[i], k@, o[j - 1]);
        } else if i == p {
            if j - 1 > p {
                lemma_lex_transitive(k@, o[p as int], o[j - 1]);
            }
        } else {
        }
    }
    assert forall|x: Seq<char>| n.contains(x) <==> (o.contains(x) || x == k@) by {
        if n.contains(x) {
            let m = choose|m: int| 0 <= m < n.len() && n[m] == x;
            if m < p {
                assert(o[m] == x);
            } else if m > p {
                assert(o[m - 1] == x);
            }
        }
        if o.contains(x) {
            let m = choose|m: int| 0 <= m < o.len() && o[m] == x;
            if m < p {
                assert(n[m] == x);
            } else {
                assert(n[m + 1] == x);
            }
        }
        if x == k@ {
            assert(n[p as int] == x);
        }
    }
}

} // verus!
