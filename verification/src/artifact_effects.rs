//! Generated artifacts: workspace-relative paths, the directory of checked
//! parts beside each artifact, and the word chunks its body is split into.
use vstd::prelude::*;
use crate::number::{padded, padded_chars};
use crate::report_shape::{split_chars, split_on};
use crate::text::{chars_eq, chars_of, ends_with, ends_with_exec, is_ascii_digit, is_ws, is_ws_exec, join, join_strings, owned, push_chars, push_str, slice_chars, starts_with, starts_with_exec, string_of, strip_suffix, strictly_sorted, views};

verus! {

/// Words per checked unit of a generated artifact.
pub const UNIT_TARGET_WORDS: usize = 384;

/// A command of a turn, as far as artifact targets go.
pub enum ArtifactCommand {
    WriteFile { path: String },
    AppendFile { path: String },
    Other,
}

/// The components of a path that name directories or files.
pub open spec fn normal_parts(pieces: Seq<Seq<char>>) -> Seq<Seq<char>>
    decreases pieces.len(),
{
    if pieces.len() == 0 {
        Seq::empty()
    } else {
        let pre = normal_parts(pieces.drop_last());
        let p = pieces.last();
        if p.len() == 0 || p == "."@ {
            pre
        } else {
            pre.push(p)
        }
    }
}

/// The path leaves the workspace: it is absolute or has a `..` component.
pub open spec fn escapes(path: Seq<char>) -> bool {
    (path.len() > 0 && path[0] == '/') || exists|i: int|
        0 <= i < split_on(path, '/').len() && #[trigger] split_on(path, '/')[i] == ".."@
}

pub open spec fn normalize_spec(path: Seq<char>) -> Result<Seq<char>, Seq<char>> {
    if escapes(path) {
        Err("artifact path escapes workspace"@)
    } else {
        let parts = normal_parts(split_on(path, '/'));
        if parts.len() == 0 {
            Err("artifact path must not be empty"@)
        } else {
            Ok(join(parts, "/"@))
        }
    }
}

/// A workspace-relative path with `.` components and repeated or trailing
/// slashes dropped; absolute paths and `..` components are refused.
pub fn normalize_path(path: &str) -> (r: Result<String, String>)
    ensures
        match r {
            Ok(p) => normalize_spec(path@) == Ok::<Seq<char>, Seq<char>>(p@),
            Err(e) => normalize_spec(path@) == Err::<Seq<char>, Seq<char>>(e@),
        },
{
    let c = chars_of(path);
    if c.len() > 0 && c[0] == '/' {
        return Err(owned("artifact path escapes workspace"));
    }
    let pieces = split_chars(c.as_slice(), '/');
    let ghost all = split_on(path@, '/');
    let dot = chars_of(".");
    let up = chars_of("..");
    let mut parts: Vec<String> = Vec::new();
    for i in 0..pieces.len()
        invariant
            c@ == path@,
            all == split_on(path@, '/'),
            dot@ == "."@,
            up@ == ".."@,
            pieces@.len() == all.len(),
            forall|k: int| 0 <= k < pieces@.len() ==> #[trigger] pieces@[k]@ == all[k],
            forall|k: int| 0 <= k < i ==> all[k] != ".."@,
            views(parts@) == normal_parts(all.take(i as int)),
    {
        assert(all.take(i + 1).drop_last() == all.take(i as int));
        assert(all.take(i + 1).last() == pieces@[i as int]@);
        let p = pieces[i].as_slice();
        if chars_eq(p, up.as_slice()) {
            assert(split_on(path@, '/')[i as int] == ".."@);
            assert(escapes(path@));
            return Err(owned("artifact path escapes workspace"));
        }
        if p.len() > 0 && !chars_eq(p, dot.as_slice()) {
            let ghost before = views(parts@);
            parts.push(string_of(p));
            assert(views(parts@) == before.push(pieces@[i as int]@));
        }
    }
    assert(all.take(all.len() as int) == all);
    if parts.len() == 0 {
        Err(owned("artifact path must not be empty"))
    } else {
        Ok(join_strings(&parts, "/"))
    }
}

/// The managed part paths, a set held in ascending order without
/// repeats, one per line, as UTF-8.
pub fn list_bytes(paths: &Vec<String>) -> (r: Vec<u8>)
    requires
        strictly_sorted(views(paths@)),
    ensures
        r@ == vstd::utf8::encode_utf8(join(views(paths@), "\n"@)),
{
    let joined = join_strings(paths, "\n");
    let bytes = joined.as_str().as_bytes();
    vstd::slice::slice_to_vec(bytes)
}

/// `part-NNN.md` with one or more digits.
pub open spec fn managed_name_spec(name: Seq<char>) -> bool {
    starts_with(name, "part-"@) && ends_with(name, ".md"@) && name.len() > 8 && forall|i: int|
        5 <= i < name.len() - 3 ==> is_ascii_digit(name[i])
}

/// The file name of a managed part: `part-` and digits and `.md`.
pub fn managed_name(name: &str) -> (r: bool)
    ensures
        r == managed_name_spec(name@),
{
    let c = chars_of(name);
    let pre = chars_of("part-");
    let suf = chars_of(".md");
    proof {
        reveal_strlit("part-");
        reveal_strlit(".md");
    }
    if !starts_with_exec(c.as_slice(), pre.as_slice()) || !ends_with_exec(
        c.as_slice(),
        suf.as_slice(),
    ) || c.len() <= 8 {
        return false;
    }
    let end = c.len() - 3;
    for i in 5..end
        invariant
            c@ == name@,
            end == c@.len() - 3,
            forall|j: int| 5 <= j < i ==> is_ascii_digit(c@[j]),
    {
        if !('0' <= c[i] && c[i] <= '9') {
            assert(!is_ascii_digit(c@[i as int]));
            return false;
        }
    }
    true
}

/// A word starts at `i`: a non-space character after a space or at the start.
pub open spec fn word_start(c: Seq<char>, i: int) -> bool {
    0 <= i < c.len() && !is_ws(c[i]) && (i == 0 || is_ws(c[i - 1]))
}

/// The positions of the word starts among the first `n` characters, in order.
pub open spec fn starts_upto(c: Seq<char>, n: int) -> Seq<int>
    decreases n,
{
    if n <= 0 {
        Seq::empty()
    } else if word_start(c, n - 1) {
        starts_upto(c, n - 1).push(n - 1)
    } else {
        starts_upto(c, n - 1)
    }
}

pub open spec fn word_starts(c: Seq<char>) -> Seq<int> {
    starts_upto(c, c.len() as int)
}

/// Number of chunks: one per 384 words, the remainder joining the last.
pub open spec fn chunk_count(c: Seq<char>) -> int {
    let n = word_starts(c).len();
    if n <= 384 {
        1
    } else {
        (n - 1) / 384 + 1
    }
}

/// Where chunk `k` begins: at the start of its first word, the first chunk
/// at the start of the text.
pub open spec fn chunk_start(c: Seq<char>, k: int) -> int {
    if k == 0 {
        0
    } else {
        word_starts(c)[384 * k]
    }
}

pub open spec fn chunk_end(c: Seq<char>, k: int) -> int {
    if k + 1 >= chunk_count(c) {
        c.len() as int
    } else {
        chunk_start(c, k + 1)
    }
}

pub proof fn lemma_starts_upto(c: Seq<char>, n: int)
    requires
        0 <= n <= c.len(),
    ensures
        forall|j: int| 0 <= j < starts_upto(c, n).len() ==> 0 <= #[trigger] starts_upto(c, n)[j] < n,
        forall|a: int, b: int| 0 <= a < b < starts_upto(c, n).len() ==> starts_upto(c, n)[a] < starts_upto(c, n)[b],
        starts_upto(c, n).len() <= n,
    decreases n,
{
    if n > 0 {
        lemma_starts_upto(c, n - 1);
    }
}

/// The body of a generated artifact cut into chunks of 384 words: each cut
/// falls at the start of a word, and the chunks put together are the body.
pub fn word_chunks(content: &str) -> (r: Vec<String>)
    ensures
        r@.len() == chunk_count(content@),
        forall|k: int|
            0 <= k < r@.len() ==> (#[trigger] r@[k])@ == content@.subrange(
                chunk_start(content@, k),
                chunk_end(content@, k),
            ),
{
    let c = chars_of(content);
    let mut starts: Vec<usize> = Vec::new();
    let mut in_word = false;
    let mut i: usize = 0;
    while i < c.len()
        invariant
            i <= c@.len(),
            c@ == content@,
            starts@.len() == starts_upto(c@, i as int).len(),
            forall|j: int| 0 <= j < starts@.len() ==> starts@[j] as int == #[trigger] starts_upto(c@, i as int)[j],
            in_word == (i > 0 && !is_ws(c@[i - 1])),
        decreases c.len() - i,
    {
        let w = is_ws_exec(c[i]);
        assert(word_start(c@, i as int) == (!w && !in_word));
        let ghost before = starts@;
        let ghost old_starts = starts_upto(c@, i as int);
        if !w && !in_word {
            starts.push(i);
            assert(starts_upto(c@, i + 1) == old_starts.push(i as int));
        } else {
            assert(starts_upto(c@, i + 1) == old_starts);
        }
        assert forall|j: int| 0 <= j < starts@.len() implies starts@[j] as int == #[trigger] starts_upto(c@, i + 1)[j] by {
            if j < before.len() {
                assert(before[j] as int == old_starts[j]);
            }
        }
        in_word = !w;
        i += 1;
    }
    proof {
        lemma_starts_upto(c@, c@.len() as int);
    }
    assert(forall|j: int| 0 <= j < starts@.len() ==> starts@[j] as int == #[trigger] word_starts(c@)[j]);
    let n = starts.len();
    let mut chunks: Vec<String> = Vec::new();
    if n <= UNIT_TARGET_WORDS {
        chunks.push(string_of(c.as_slice()));
        assert(c@.subrange(0, c@.len() as int) == c@);
        return chunks;
    }
    let count = (n - 1) / UNIT_TARGET_WORDS + 1;
    let mut start: usize = 0;
    let mut k: usize = 1;
    while k < count
        invariant
            c@ == content@,
            n == word_starts(c@).len(),
            n == starts@.len(),
            n > 384,
            count == chunk_count(c@),
            1 <= k <= count,
            forall|j: int| 0 <= j < n ==> starts@[j] as int == #[trigger] word_starts(c@)[j],
            forall|j: int| 0 <= j < n ==> 0 <= #[trigger] word_starts(c@)[j] < c@.len(),
            forall|a: int, b: int| 0 <= a < b < n ==> word_starts(c@)[a] < word_starts(c@)[b],
            chunks@.len() == k - 1,
            start as int == chunk_start(c@, k - 1),
            start <= c@.len(),
            forall|j: int|
                0 <= j < chunks@.len() ==> (#[trigger] chunks@[j])@ == c@.subrange(
                    chunk_start(c@, j),
                    chunk_end(c@, j),
                ),
        decreases count - k,
    {
        assert(384 * k < n) by (nonlinear_arith)
            requires
                k < count,
                count == (n - 1) / 384 + 1,
        ;
        let end = starts[384 * k];
        assert(start <= end) by {
            if k - 1 > 0 {
                assert(word_starts(c@)[384 * (k - 1)] < word_starts(c@)[384 * k]);
            }
        }
        chunks.push(string_of(slice_chars(c.as_slice(), start, end).as_slice()));
        start = end;
        k += 1;
    }
    chunks.push(string_of(slice_chars(c.as_slice(), start, c.len()).as_slice()));
    chunks
}

/// The part directory of an artifact: its path without `.md`, then `.parts`.
pub open spec fn part_dir_spec(path: Seq<char>) -> Seq<char> {
    match strip_suffix(path, ".md"@) {
        Some(stem) => stem + ".parts"@,
        None => path + ".parts"@,
    }
}

/// The directory that holds an artifact's checked parts.
pub fn part_dir(path: &str) -> (r: String)
    ensures
        r@ == part_dir_spec(path@),
{
    let c = chars_of(path);
    let md = chars_of(".md");
    let mut r = String::new();
    if ends_with_exec(c.as_slice(), md.as_slice()) {
        let stem = slice_chars(c.as_slice(), 0, c.len() - md.len());
        assert(stem@ == c@.take(c@.len() - md@.len()));
        push_chars(&mut r, stem.as_slice());
    } else {
        push_chars(&mut r, c.as_slice());
    }
    push_str(&mut r, ".parts");
    r
}

/// The path of part `ordinal`: `DIR/part-NNN.md`, at least three digits.
pub open spec fn part_path_spec(path: Seq<char>, ordinal: u32) -> Seq<char> {
    part_dir_spec(path) + "/part-"@ + padded(ordinal as nat, 3) + ".md"@
}

/// The path of one checked part of an artifact.
pub fn part_path(path: &str, ordinal: u32) -> (r: String)
    ensures
        r@ == part_path_spec(path@, ordinal),
{
    let mut r = part_dir(path);
    push_str(&mut r, "/part-");
    let d = padded_chars(ordinal as u64, 3);
    push_chars(&mut r, d.as_slice());
    push_str(&mut r, ".md");
    r
}

/// One target lies inside, or is, the other.
pub open spec fn nested(a: Seq<char>, b: Seq<char>) -> bool {
    a == b || starts_with(a, b + "/"@) || starts_with(b, a + "/"@)
}

/// Two artifact bundles (file and part directory each) touch.
pub open spec fn overlap(l: (Seq<char>, Seq<char>), r: (Seq<char>, Seq<char>)) -> bool {
    nested(l.0, r.0) || nested(l.0, r.1) || nested(l.1, r.0) || nested(l.1, r.1)
}

fn nested_exec(a: &[char], b: &[char]) -> (r: bool)
    ensures
        r == nested(a@, b@),
{
    let mut bs = slice_chars(b, 0, b.len());
    bs.push('/');
    let mut as_ = slice_chars(a, 0, a.len());
    as_.push('/');
    proof {
        reveal_strlit("/");
        assert(bs@ == b@ + "/"@);
        assert(as_@ == a@ + "/"@);
    }
    chars_eq(a, b) || starts_with_exec(a, bs.as_slice()) || starts_with_exec(b, as_.as_slice())
}

fn overlap_exec(l: &(Vec<char>, Vec<char>), r: &(Vec<char>, Vec<char>)) -> (res: bool)
    ensures
        res == overlap((l.0@, l.1@), (r.0@, r.1@)),
{
    nested_exec(l.0.as_slice(), r.0.as_slice()) || nested_exec(l.0.as_slice(), r.1.as_slice())
        || nested_exec(l.1.as_slice(), r.0.as_slice()) || nested_exec(
        l.1.as_slice(),
        r.1.as_slice(),
    )
}

/// The paths of the file-writing commands, in order.
pub open spec fn target_paths(commands: Seq<ArtifactCommand>) -> Seq<Seq<char>>
    decreases commands.len(),
{
    if commands.len() == 0 {
        Seq::empty()
    } else {
        let pre = target_paths(commands.drop_last());
        match commands.last() {
            ArtifactCommand::WriteFile { path } => pre.push(path@),
            ArtifactCommand::AppendFile { path } => pre.push(path@),
            ArtifactCommand::Other => pre,
        }
    }
}

/// Normalizing the paths in order: the first refusal, or all of them.
pub open spec fn normalize_all(paths: Seq<Seq<char>>) -> Result<Seq<Seq<char>>, Seq<char>>
    decreases paths.len(),
{
    if paths.len() == 0 {
        Ok(Seq::empty())
    } else {
        match normalize_all(paths.drop_last()) {
            Err(e) => Err(e),
            Ok(pre) => match normalize_spec(paths.last()) {
                Err(e) => Err(e),
                Ok(p) => Ok(pre.push(p)),
            },
        }
    }
}

/// Some two different bundles overlap.
pub open spec fn any_overlap(paths: Seq<Seq<char>>) -> bool {
    exists|i: int, j: int|
        0 <= i < j < paths.len() && overlap(
            (paths[i], part_dir_spec(paths[i])),
            (paths[j], part_dir_spec(paths[j])),
        )
}

pub open spec fn bundle_spec(commands: Seq<ArtifactCommand>) -> Result<(), Seq<char>> {
    match normalize_all(target_paths(commands)) {
        Err(e) => Err(e),
        Ok(paths) => if any_overlap(paths) {
            Err("turn contains overlapping generated artifact targets"@)
        } else {
            Ok(())
        },
    }
}

proof fn lemma_normalize_error_persists(paths: Seq<Seq<char>>, n: nat)
    requires
        n <= paths.len(),
        normalize_all(paths.take(n as int)) is Err,
    ensures
        normalize_all(paths) == normalize_all(paths.take(n as int)),
    decreases paths.len() - n,
{
    if n < paths.len() {
        assert(paths.take(n + 1 as int).drop_last() == paths.take(n as int));
        lemma_normalize_error_persists(paths, n + 1);
    } else {
        assert(paths.take(n as int) == paths);
    }
}

/// The files a turn writes, with their part directories, must be pairwise
/// apart: no target is another, or lies inside another.
pub fn validate_bundle_commands(commands: &Vec<ArtifactCommand>) -> (r: Result<(), String>)
    ensures
        match r {
            Ok(()) => bundle_spec(commands@) == Ok::<(), Seq<char>>(()),
            Err(e) => bundle_spec(commands@) == Err::<(), Seq<char>>(e@),
        },
{
    let mut bundles: Vec<(Vec<char>, Vec<char>)> = Vec::new();
    let ghost targets = target_paths(commands@);
    let mut t: usize = 0;
    for i in 0..commands.len()
        invariant
            targets == target_paths(commands@),
            t == target_paths(commands@.take(i as int)).len(),
            t <= targets.len(),
            t <= i,
            target_paths(commands@.take(i as int)) == targets.take(t as int),
            normalize_all(targets.take(t as int)) matches Ok(ps) && ps.len() == bundles@.len() && forall|k: int|
                0 <= k < ps.len() ==> (#[trigger] bundles@[k]).0@ == ps[k] && bundles@[k].1@
                    == part_dir_spec(ps[k]),
    {
        proof {
            assert(commands@.take(i + 1).drop_last() == commands@.take(i as int));
            assert(commands@.take(i + 1).last() == commands@[i as int]);
            lemma_target_prefix(commands@, i + 1);
        }
        let target = match &commands[i] {
            ArtifactCommand::WriteFile { path } => Some(path),
            ArtifactCommand::AppendFile { path } => Some(path),
            ArtifactCommand::Other => None,
        };
        if let Some(path) = target {
            assert(target_paths(commands@.take(i + 1)) == target_paths(commands@.take(i as int)).push(path@));
            assert(t + 1 <= targets.len());
            assert(targets.take(t + 1).drop_last() == targets.take(t as int));
            assert(targets.take(t + 1).last() == path@);
            match normalize_path(path.as_str()) {
                Err(e) => {
                    proof {
                        lemma_normalize_error_persists(targets, (t + 1) as nat);
                    }
                    return Err(e);
                },
                Ok(p) => {
                    let dir = part_dir(p.as_str());
                    let ghost before = bundles@;
                    bundles.push((chars_of(p.as_str()), chars_of(dir.as_str())));
                    assert(forall|k: int| 0 <= k < before.len() ==> bundles@[k] == before[k]);
                },
            }
            t = t + 1;
        }
    }
    assert(commands@.take(commands@.len() as int) == commands@);
    assert(targets.take(t as int) == targets);
    let ghost paths = normalize_all(targets)->Ok_0;
    assert(normalize_all(targets) == Ok::<Seq<Seq<char>>, Seq<char>>(paths));
    assert(bundle_spec(commands@) == (if any_overlap(paths) {
        Err::<(), Seq<char>>("turn contains overlapping generated artifact targets"@)
    } else {
        Ok(())
    }));
    let n = bundles.len();
    let ghost verdict = bundle_spec(commands@);
    for a in 0..n
        invariant
            verdict == bundle_spec(commands@),
            verdict == (if any_overlap(paths) {
                Err::<(), Seq<char>>("turn contains overlapping generated artifact targets"@)
            } else {
                Ok(())
            }),
            n == bundles@.len() == paths.len(),
            forall|k: int| 0 <= k < n ==> (#[trigger] bundles@[k]).0@ == paths[k] && bundles@[k].1@ == part_dir_spec(paths[k]),
            forall|x: int, y: int| 0 <= x < a && x < y < n ==> !overlap(
                (paths[x], part_dir_spec(paths[x])),
                (paths[y], part_dir_spec(paths[y])),
            ),
    {
        for b in a + 1..n
            invariant
                verdict == bundle_spec(commands@),
                verdict == (if any_overlap(paths) {
                    Err::<(), Seq<char>>("turn contains overlapping generated artifact targets"@)
                } else {
                    Ok(())
                }),
                n == bundles@.len() == paths.len(),
                a < n,
                forall|k: int| 0 <= k < n ==> (#[trigger] bundles@[k]).0@ == paths[k] && bundles@[k].1@ == part_dir_spec(paths[k]),
                forall|x: int, y: int| 0 <= x < a && x < y < n ==> !overlap(
                    (paths[x], part_dir_spec(paths[x])),
                    (paths[y], part_dir_spec(paths[y])),
                ),
                forall|y: int| a < y < b ==> !overlap(
                    (paths[a as int], part_dir_spec(paths[a as int])),
                    (paths[y], part_dir_spec(paths[y])),
                ),
        {
            if overlap_exec(&bundles[a], &bundles[b]) {
                assert(any_overlap(paths));
                return Err(owned("turn contains overlapping generated artifact targets"));
            }
        }
    }
    Ok(())
}

proof fn lemma_target_prefix(commands: Seq<ArtifactCommand>, n: int)
    requires
        0 <= n <= commands.len(),
    ensures
        target_paths(commands.take(n)) == target_paths(commands).take(
            target_paths(commands.take(n)).len() as int,
        ),
        target_paths(commands.take(n)).len() <= target_paths(commands).len(),
    decreases commands.len() - n,
{
    if n < commands.len() {
        lemma_target_prefix(commands, n + 1);
        assert(commands.take(n + 1).drop_last() == commands.take(n));
    } else {
        assert(commands.take(n) == commands);
    }
}

} // verus!
