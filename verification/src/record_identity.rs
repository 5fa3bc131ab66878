//! Workspace records that grow past their token target are split into
//! linked part files; this module cuts the body and writes the links.
use vstd::prelude::*;
use crate::continuity::last_segment;
use crate::number::{decimal, padded, padded_chars, u64_text};
use crate::text::{chars_of, ends_with, ends_with_exec, is_ws, is_ws_exec, join, owned, push_chars, push_str, slice_chars, str_eq, string_of, trim, trim_exec};

verus! {

/// Target size of a record, in estimated tokens.
pub const TARGET_TOKENS: usize = 512;

/// Bytes per estimated token.
pub const CHARS_PER_TOKEN: usize = 4;

/// Bytes at which a part may be cut.
pub const PART_CHARS: usize = 1600;

pub open spec fn normalized_kind_spec(kind: Seq<char>) -> Seq<char> {
    if kind == "today"@ {
        "journal"@
    } else {
        kind
    }
}

/// `today` is another name for `journal`.
pub fn normalized_kind(kind: &str) -> (r: &str)
    ensures
        r@ == normalized_kind_spec(kind@),
{
    if str_eq(kind, "today") {
        "journal"
    } else {
        kind
    }
}

/// Bytes that a character takes in UTF-8.
pub open spec fn utf8_width(c: char) -> nat {
    if (c as u32) < 0x80 {
        1
    } else if (c as u32) < 0x800 {
        2
    } else if (c as u32) < 0x10000 {
        3
    } else {
        4
    }
}

/// Bytes that a text takes in UTF-8.
pub open spec fn byte_len(s: Seq<char>) -> nat
    decreases s.len(),
{
    if s.len() == 0 {
        0
    } else {
        byte_len(s.drop_last()) + utf8_width(s.last())
    }
}

fn utf8_width_exec(c: char) -> (r: usize)
    ensures
        r == utf8_width(c),
{
    let v = c as u32;
    if v < 0x80 {
        1
    } else if v < 0x800 {
        2
    } else if v < 0x10000 {
        3
    } else {
        4
    }
}

/// Bytes of a text, counted a character at a time.
pub fn byte_count(s: &[char]) -> (r: usize)
    requires
        s@.len() * 4 <= usize::MAX,
    ensures
        r == byte_len(s@),
        r <= s@.len() * 4,
{
    let mut n: usize = 0;
    for i in 0..s.len()
        invariant
            s@.len() * 4 <= usize::MAX,
            n == byte_len(s@.take(i as int)),
            n <= i * 4,
    {
        assert(s@.take(i + 1).drop_last() == s@.take(i as int));
        n = n + utf8_width_exec(s[i]);
    }
    assert(s@.take(s@.len() as int) == s@);
    n
}

/// A token estimate: bytes divided by four, rounded up.
pub open spec fn estimated_tokens_spec(bytes: nat) -> nat {
    (bytes + 3) / 4
}

/// The estimated tokens of a text: its length in bytes divided by four, rounded up.
pub fn estimated_tokens(text: &str) -> (r: usize)
    ensures
        r == estimated_tokens_spec(text.len() as nat),
{
    let n = text.len();
    let r = n / CHARS_PER_TOKEN + if n % CHARS_PER_TOKEN == 0 { 0 } else { 1 };
    assert(r == (n + 3) / 4) by (nonlinear_arith)
        requires
            r == n / 4 + if n % 4 == 0 { 0int } else { 1int },
    ;
    r
}

/// Cutting a body into parts: characters gather until the part has at least
/// 1600 bytes and ends in whitespace (or has more than 3200 bytes); each
/// finished part is trimmed.  Returns the parts so far and the pending text.
pub open spec fn chunk_fold(body: Seq<char>) -> (Seq<Seq<char>>, Seq<char>)
    decreases body.len(),
{
    if body.len() == 0 {
        (Seq::empty(), Seq::empty())
    } else {
        let (chunks, current) = chunk_fold(body.drop_last());
        let c = body.last();
        let next = current.push(c);
        if byte_len(next) >= 1600 && (is_ws(c) || byte_len(next) > 3200) {
            (chunks.push(trim(next)), Seq::empty())
        } else {
            (chunks, next)
        }
    }
}

/// The parts of a body, the pending text kept when it is not blank.
pub open spec fn body_chunks_spec(body: Seq<char>) -> Seq<Seq<char>> {
    let (chunks, current) = chunk_fold(body);
    if trim(current).len() > 0 {
        chunks.push(trim(current))
    } else {
        chunks
    }
}

proof fn lemma_byte_len_bound(s: Seq<char>)
    ensures
        byte_len(s) <= s.len() * 4,
    decreases s.len(),
{
    if s.len() > 0 {
        lemma_byte_len_bound(s.drop_last());
    }
}

/// The body of a long record cut into parts of about 1600 bytes, each cut
/// after whitespace where it can be.
pub fn body_chunks(body: &str) -> (r: Vec<String>)
    ensures
        r@.len() == body_chunks_spec(body@).len(),
        forall|i: int| 0 <= i < r@.len() ==> #[trigger] r@[i]@ == body_chunks_spec(body@)[i],
{
    let b = chars_of(body);
    let mut chunks: Vec<String> = Vec::new();
    let mut current: Vec<char> = Vec::new();
    let mut bytes: usize = 0;
    for i in 0..b.len()
        invariant
            b@ == body@,
            chunks@.len() == chunk_fold(b@.take(i as int)).0.len(),
            forall|k: int| 0 <= k < chunks@.len() ==> #[trigger] chunks@[k]@ == chunk_fold(b@.take(i as int)).0[k],
            current@ == chunk_fold(b@.take(i as int)).1,
            bytes == byte_len(current@),
            bytes <= 3204,
    {
        assert(b@.take(i + 1).drop_last() == b@.take(i as int));
        assert(b@.take(i + 1).last() == b@[i as int]);
        let c = b[i];
        current.push(c);
        bytes = bytes + utf8_width_exec(c);
        assert(current@.drop_last() == chunk_fold(b@.take(i as int)).1);
        if bytes >= PART_CHARS && (is_ws_exec(c) || bytes > PART_CHARS * 2) {
            let t = trim_exec(current.as_slice());
            chunks.push(string_of(t.as_slice()));
            current = Vec::new();
            bytes = 0;
        }
    }
    assert(b@.take(b@.len() as int) == b@);
    let t = trim_exec(current.as_slice());
    if t.len() > 0 {
        chunks.push(string_of(t.as_slice()));
    }
    chunks
}

/// The file name: the part of the path after its last `/`.
pub fn file_name(rel: &str) -> (r: String)
    ensures
        r@ == last_segment(rel@),
{
    let c = chars_of(rel);
    let mut start: usize = 0;
    for i in 0..c.len()
        invariant
            start <= i,
            c@ == rel@,
            last_segment(c@.take(i as int)) == c@.subrange(start as int, i as int),
    {
        assert(c@.take(i + 1).drop_last() == c@.take(i as int));
        assert(c@.take(i + 1).last() == c@[i as int]);
        if c[i] == '/' {
            start = i + 1;
        }
        assert(c@.subrange(start as int, i + 1) == if c@[i as int] == '/' {
            Seq::<char>::empty()
        } else {
            c@.subrange(start as int, i as int).push(c@[i as int])
        });
    }
    assert(c@.take(c@.len() as int) == c@);
    let s = slice_chars(c.as_slice(), start, c.len());
    string_of(s.as_slice())
}

/// The part directory of a record: its path without `.md`, then `.parts`.
pub fn part_dir(rel: &str) -> (r: String)
    ensures
        r@ == crate::artifact_effects::part_dir_spec(rel@),
{
    crate::artifact_effects::part_dir(rel)
}

/// `s` with every trailing `.md` removed (`str::trim_end_matches`).
pub open spec fn trim_md(s: Seq<char>) -> Seq<char>
    decreases s.len(),
{
    if s.len() >= 3 && ends_with(s, ".md"@) {
        trim_md(s.take(s.len() - 3))
    } else {
        s
    }
}

/// The relative link from a record to its part directory: the file name
/// without its `.md` endings, then `.parts`.
pub fn link_prefix(rel: &str) -> (r: String)
    ensures
        r@ == trim_md(last_segment(rel@)) + ".parts"@,
{
    let name = file_name(rel);
    let mut c = chars_of(name.as_str());
    let md = chars_of(".md");
    proof {
        reveal_strlit(".md");
    }
    let ghost whole = c@;
    while c.len() >= 3 && ends_with_exec(c.as_slice(), md.as_slice())
        invariant
            md@ == ".md"@,
            trim_md(whole) == trim_md(c@),
        decreases c.len(),
    {
        c = slice_chars(c.as_slice(), 0, c.len() - 3);
    }
    let mut r = string_of(c.as_slice());
    push_str(&mut r, ".parts");
    r
}

/// `- [part-NNN](PREFIX/part-NNN.md)` for part `n`.
pub open spec fn part_link(prefix: Seq<char>, n: nat) -> Seq<char> {
    "- [part-"@ + padded(n, 3) + "]("@ + prefix + "/part-"@ + padded(n, 3) + ".md)"@
}

pub open spec fn main_body_spec(prefix: Seq<char>, original_bytes: nat, total: nat) -> Seq<char> {
    join(
        seq![
            "Size justification: original record was about "@ + decimal(estimated_tokens_spec(original_bytes)) + " tokens, above target 512."@,
            "Owner data is split into linked part files without truncation."@,
            Seq::empty(),
            "Parts:"@,
        ] + Seq::new(total, |i: int| part_link(prefix, (i + 1) as nat)),
        "\n"@,
    )
}

proof fn lemma_join_push(parts: Seq<Seq<char>>, x: Seq<char>, sep: Seq<char>)
    requires
        parts.len() > 0,
    ensures
        join(parts.push(x), sep) == join(parts, sep) + sep + x,
{
    assert(parts.push(x).drop_last() == parts);
}

/// The body that replaces a split record: why it was split, then a link to
/// each of its `total` parts.
pub fn main_body(link_prefix: &str, original_bytes: usize, total: usize) -> (r: String)
    requires
        total < usize::MAX,
    ensures
        r@ == main_body_spec(link_prefix@, original_bytes as nat, total as nat),
{
    let tokens = original_bytes / 4 + if original_bytes % 4 == 0 { 0 } else { 1 };
    let mut r = owned("Size justification: original record was about ");
    push_str(&mut r, u64_text(tokens as u64).as_str());
    push_str(&mut r, " tokens, above target 512.");
    let ghost first = r@;
    push_str(&mut r, "\n");
    push_str(&mut r, "Owner data is split into linked part files without truncation.");
    push_str(&mut r, "\n");
    push_str(&mut r, "\n");
    push_str(&mut r, "Parts:");
    let ghost head = seq![
        first,
        "Owner data is split into linked part files without truncation."@,
        Seq::<char>::empty(),
        "Parts:"@,
    ];
    proof {
        assert(tokens == estimated_tokens_spec(original_bytes as nat));
        assert(join(seq![first], "\n"@) == first);
        assert(seq![first].push("Owner data is split into linked part files without truncation."@) == head.take(2));
        lemma_join_push(seq![first], "Owner data is split into linked part files without truncation."@, "\n"@);
        lemma_join_push(head.take(2), Seq::empty(), "\n"@);
        assert(head.take(2).push(Seq::<char>::empty()) == head.take(3));
        lemma_join_push(head.take(3), "Parts:"@, "\n"@);
        assert(head.take(3).push("Parts:"@) == head);
        assert(r@ == join(head, "\n"@));
    }
    let mut n: usize = 1;
    while n <= total
        invariant
            1 <= n <= total + 1,
            total < usize::MAX,
            head.len() == 4,
            r@ == join(head + Seq::new((n - 1) as nat, |i: int| part_link(link_prefix@, (i + 1) as nat)), "\n"@),
        decreases total + 1 - n,
    {
        let ghost before = head + Seq::new((n - 1) as nat, |i: int| part_link(link_prefix@, (i + 1) as nat));
        let d = padded_chars(n as u64, 3);
        push_str(&mut r, "\n");
        push_str(&mut r, "- [part-");
        push_chars(&mut r, d.as_slice());
        push_str(&mut r, "](");
        push_str(&mut r, link_prefix);
        push_str(&mut r, "/part-");
        push_chars(&mut r, d.as_slice());
        push_str(&mut r, ".md)");
        proof {
            assert(before.len() >= 4);
            lemma_join_push(before, part_link(link_prefix@, n as nat), "\n"@);
            assert(before.push(part_link(link_prefix@, n as nat)) == head + Seq::new(n as nat, |i: int| part_link(link_prefix@, (i + 1) as nat)));
        }
        n += 1;
    }
    r
}

/// One part file of a split record: its path and its text.
pub struct RecordPart {
    pub rel: String,
    pub text: String,
}

pub open spec fn part_text(title: Seq<char>, file: Seq<char>, number: nat, total: nat, chunk: Seq<char>) -> Seq<char> {
    "# "@ + title + " Part "@ + padded(number, 3) + "\n\nSource record: ["@ + file + "](../"@ + file
        + ")\nPart: "@ + decimal(number) + "/"@ + decimal(total) + "\n\n"@ + chunk + "\n"@
}

/// Part `index + 1` of `total` of the record at `rel` titled `title`.
pub fn part(part_dir: &str, rel: &str, title: &str, chunk: &str, index: usize, total: usize) -> (r: RecordPart)
    requires
        index < usize::MAX,
    ensures
        r.rel@ == part_dir@ + "/part-"@ + padded(index as nat + 1, 3) + ".md"@,
        r.text@ == part_text(title@, last_segment(rel@), index as nat + 1, total as nat, chunk@),
{
    let number = index + 1;
    let d = padded_chars(number as u64, 3);
    let mut path = owned(part_dir);
    push_str(&mut path, "/part-");
    push_chars(&mut path, d.as_slice());
    push_str(&mut path, ".md");
    let file = file_name(rel);
    let mut text = owned("# ");
    push_str(&mut text, title);
    push_str(&mut text, " Part ");
    push_chars(&mut text, d.as_slice());
    push_str(&mut text, "\n\nSource record: [");
    push_str(&mut text, file.as_str());
    push_str(&mut text, "](../");
    push_str(&mut text, file.as_str());
    push_str(&mut text, ")\nPart: ");
    push_str(&mut text, u64_text(number as u64).as_str());
    push_str(&mut text, "/");
    push_str(&mut text, u64_text(total as u64).as_str());
    push_str(&mut text, "\n\n");
    push_str(&mut text, chunk);
    push_str(&mut text, "\n");
    RecordPart { rel: path, text }
}

/// A record too long to keep in one file: the body its main file takes
/// instead, and its parts.
pub struct SplitRecord {
    pub main_body: String,
    pub parts: Vec<RecordPart>,
}

/// A record whose rendered text has `original_bytes` bytes is split when
/// that is above 512 estimated tokens and its body cuts into two parts at least.
pub open spec fn splits(original_bytes: nat, body: Seq<char>) -> bool {
    estimated_tokens_spec(original_bytes) > 512 && body_chunks_spec(body).len() >= 2
}

/// Every finished part took 400 characters of the body at least.
proof fn lemma_chunk_count(body: Seq<char>)
    ensures
        chunk_fold(body).0.len() * 400 + chunk_fold(body).1.len() <= body.len(),
    decreases body.len(),
{
    if body.len() > 0 {
        lemma_chunk_count(body.drop_last());
        let (chunks, current) = chunk_fold(body.drop_last());
        let next = current.push(body.last());
        lemma_byte_len_bound(next);
    }
}

/// How the record at `rel` titled `title` with body `body` is stored, its
/// whole text rendered as `original`: in one file while that text is
/// within 512 estimated tokens or the body does not cut into two parts at
/// least; else split into linked parts, the main file listing them.
pub fn split_record(rel: &str, title: &str, body: &str, original: &str) -> (r: Option<SplitRecord>)
    ensures
        match r {
            None => !splits(original.len() as nat, body@),
            Some(split) => splits(original.len() as nat, body@) && {
                let chunks = body_chunks_spec(body@);
                &&& split.main_body@ == main_body_spec(trim_md(last_segment(rel@)) + ".parts"@,
                    original.len() as nat, chunks.len())
                &&& split.parts@.len() == chunks.len()
                &&& forall|i: int| 0 <= i < chunks.len() ==> {
                    &&& (#[trigger] split.parts@[i]).rel@ == crate::artifact_effects::part_dir_spec(rel@)
                        + "/part-"@ + padded((i + 1) as nat, 3) + ".md"@
                    &&& split.parts@[i].text@ == part_text(title@, last_segment(rel@), (i + 1) as nat, chunks.len(), chunks[i])
                }
            },
        },
{
    let tokens = estimated_tokens(original);
    if tokens <= 512 {
        return None;
    }
    let chunks = body_chunks(body);
    if chunks.len() < 2 {
        return None;
    }
    let all = chars_of(body);
    let n = all.len();
    proof {
        lemma_chunk_count(body@);
        assert(body@.len() == n);
    }
    let dir = part_dir(rel);
    let prefix = link_prefix(rel);
    let total = chunks.len();
    let mut parts: Vec<RecordPart> = Vec::new();
    for i in 0..total
        invariant
            total == chunks@.len(),
            chunks@.len() == body_chunks_spec(body@).len(),
            forall|k: int| 0 <= k < chunks@.len() ==> #[trigger] chunks@[k]@ == body_chunks_spec(body@)[k],
            dir@ == crate::artifact_effects::part_dir_spec(rel@),
            parts@.len() == i,
            forall|k: int| 0 <= k < i ==> {
                &&& (#[trigger] parts@[k]).rel@ == crate::artifact_effects::part_dir_spec(rel@)
                    + "/part-"@ + padded((k + 1) as nat, 3) + ".md"@
                &&& parts@[k].text@ == part_text(title@, last_segment(rel@), (k + 1) as nat, total as nat, body_chunks_spec(body@)[k])
            },
    {
        let p = part(dir.as_str(), rel, title, chunks[i].as_str(), i, total);
        parts.push(p);
    }
    Some(SplitRecord { main_body: main_body(prefix.as_str(), original.len(), total), parts })
}

} // verus!
