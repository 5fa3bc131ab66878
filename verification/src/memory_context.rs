//! Reading memory notes back as context: the keys an objective corrects,
//! the notes that may be offered, and the texts that must never be.
use vstd::prelude::*;
use crate::memory_record::canonical_key;
use crate::report_shape::{canonical_key_exec, split_chars, split_on};
use crate::text::{push_char, chars_of, contains, contains_exec, ends_with_exec, lower, lower_exec, owned, split_once, split_once_exec, starts_with_exec, string_of, strip_prefix, strip_suffix, trim, trim_exec, utf8_text, views, chars_eq, lemma_lex_irreflexive, sorted_insert, strictly_sorted};

verus! {

/// The key that one line of an objective corrects: `forget KEY: ...` or
/// `correct KEY: ...`, in any letter case, with a canonical key.
pub open spec fn correction_key(line: Seq<char>) -> Option<Seq<char>> {
    let l = lower(trim(line));
    let rest = match strip_prefix(l, "forget "@) {
        Some(r) => Some(r),
        None => strip_prefix(l, "correct "@),
    };
    match rest {
        None => None,
        Some(r) => match split_once(r, ":"@) {
            None => None,
            Some((before, _)) => if canonical_key(trim(before)) {
                Some(trim(before))
            } else {
                None
            },
        },
    }
}

/// The key of each line.
pub open spec fn line_keys(lines: Seq<Seq<char>>) -> Seq<Option<Seq<char>>> {
    Seq::new(lines.len(), |i: int| correction_key(lines[i]))
}

/// `k` is corrected by some line of `objective`.
pub open spec fn corrected(objective: Seq<char>, k: Seq<char>) -> bool {
    exists|i: int|
        0 <= i < split_on(objective, '\n').len() && correction_key(
            #[trigger] split_on(objective, '\n')[i],
        ) == Some(k)
}

fn correction_key_exec(line: &[char]) -> (r: Option<Vec<char>>)
    ensures
        match r {
            Some(k) => correction_key(line@) == Some(k@),
            None => correction_key(line@) is None,
        },
{
    let t = trim_exec(line);
    let l = lower_exec(t.as_slice());
    let forget = chars_of("forget ");
    let correct = chars_of("correct ");
    let rest = match crate::text::strip_prefix_exec(l.as_slice(), forget.as_slice()) {
        Some(r) => r,
        None => match crate::text::strip_prefix_exec(l.as_slice(), correct.as_slice()) {
            Some(r) => r,
            None => return None,
        },
    };
    let colon = chars_of(":");
    match split_once_exec(rest.as_slice(), colon.as_slice()) {
        None => None,
        Some((before, _)) => {
            let k = trim_exec(before.as_slice());
            if canonical_key_exec(k.as_slice()) {
                Some(k)
            } else {
                None
            }
        },
    }
}

/// One more line read: the keys gathered are those of the lines so far.
proof fn lemma_keys_step(
    opts: Seq<Option<Seq<char>>>,
    i: int,
    before: Seq<Seq<char>>,
    after: Seq<Seq<char>>,
)
    requires
        0 <= i < opts.len(),
        forall|k: Seq<char>|
            before.contains(k) <==> exists|j: int| 0 <= j < i && #[trigger] opts[j] == Some(k),
        opts[i] is None ==> after == before,
        opts[i] matches Some(n) ==> forall|x: Seq<char>|
            #[trigger] after.contains(x) <==> (before.contains(x) || x == n),
    ensures
        forall|k: Seq<char>|
            after.contains(k) <==> exists|j: int| 0 <= j < i + 1 && #[trigger] opts[j] == Some(k),
{
    assert forall|k: Seq<char>|
        after.contains(k) implies exists|j: int| 0 <= j < i + 1 && #[trigger] opts[j] == Some(k) by {
        if before.contains(k) {
            let j = choose|j: int| 0 <= j < i && #[trigger] opts[j] == Some(k);
            assert(opts[j] == Some(k));
        } else {
            assert(opts[i] == Some(k));
        }
    }
    assert forall|k: Seq<char>|
        (exists|j: int| 0 <= j < i + 1 && #[trigger] opts[j] == Some(k)) implies after.contains(k) by {
        let j = choose|j: int| 0 <= j < i + 1 && #[trigger] opts[j] == Some(k);
        if j < i {
            assert(before.contains(k));
        }
    }
}

/// The keys that an objective asks to forget or correct, each once, in
/// ascending order.
pub fn correction_keys(objective: &str) -> (r: Vec<String>)
    ensures
        strictly_sorted(views(r@)),
        forall|k: Seq<char>| views(r@).contains(k) <==> corrected(objective@, k),
        forall|i: int, j: int| 0 <= i < j < r@.len() ==> r@[i]@ != r@[j]@,
{
    let c = chars_of(objective);
    let lines = split_chars(c.as_slice(), '\n');
    let ghost all = split_on(objective@, '\n');
    let ghost opts = line_keys(all);
    let mut keys: Vec<String> = Vec::new();
    for i in 0..lines.len()
        invariant
            c@ == objective@,
            all == split_on(objective@, '\n'),
            opts == line_keys(all),
            lines@.len() == all.len(),
            forall|k: int| 0 <= k < lines@.len() ==> #[trigger] lines@[k]@ == all[k],
            strictly_sorted(views(keys@)),
            forall|k: Seq<char>|
                views(keys@).contains(k) <==> exists|j: int| 0 <= j < i && #[trigger] opts[j] == Some(k),
    {
        let ghost before = views(keys@);
        assert(lines@[i as int]@ == all[i as int]);
        assert(opts[i as int] == correction_key(all[i as int]));
        match correction_key_exec(lines[i].as_slice()) {
            None => {},
            Some(k) => {
                sorted_insert(&mut keys, k.as_slice());
            },
        }
        proof {
            lemma_keys_step(opts, i as int, before, views(keys@));
        }
    }
    proof {
        assert forall|k: Seq<char>| views(keys@).contains(k) <==> corrected(objective@, k) by {
            if views(keys@).contains(k) {
                let j = choose|j: int| 0 <= j < opts.len() && #[trigger] opts[j] == Some(k);
                assert(correction_key(all[j]) == Some(k));
            }
            if corrected(objective@, k) {
                let j = choose|j: int| 0 <= j < all.len() && correction_key(#[trigger] all[j]) == Some(k);
                assert(opts[j] == Some(k));
            }
        }
        assert forall|a: int, b: int| 0 <= a < b < keys@.len() implies keys@[a]@ != keys@[b]@ by {
            assert(views(keys@)[a] == keys@[a]@);
            assert(views(keys@)[b] == keys@[b]@);
            lemma_lex_irreflexive(keys@[a]@);
        }
    }
    keys
}

/// A body cut from its end, one character at a time, until its UTF-8
/// encoding is at most `n` bytes.
pub open spec fn byte_cut_spec(s: Seq<char>, n: nat) -> Seq<char>
    decreases s.len(),
{
    if s.len() == 0 || byte_len(s) <= n {
        s
    } else {
        byte_cut_spec(s.drop_last(), n)
    }
}

/// The encoding of two texts one after the other is the two encodings.
pub proof fn lemma_encode_concat(a: Seq<char>, b: Seq<char>)
    ensures
        vstd::utf8::encode_utf8(a + b) == vstd::utf8::encode_utf8(a) + vstd::utf8::encode_utf8(b),
    decreases a.len(),
{
    if a.len() > 0 {
        assert((a + b).drop_first() =~= a.drop_first() + b);
        assert((a + b)[0] == a[0]);
        lemma_encode_concat(a.drop_first(), b);
        assert(vstd::utf8::encode_utf8(a + b) =~= vstd::utf8::encode_utf8(a) + vstd::utf8::encode_utf8(b));
    } else {
        assert(a + b =~= b);
    }
}

/// A cut body is a prefix of the body and encodes to at most `n` bytes.
pub proof fn lemma_byte_cut_bound(s: Seq<char>, n: nat)
    ensures
        byte_len(byte_cut_spec(s, n)) <= n,
        byte_cut_spec(s, n).len() <= s.len(),
        s.take(byte_cut_spec(s, n).len() as int) == byte_cut_spec(s, n),
    decreases s.len(),
{
    if s.len() == 0 {
        assert(vstd::utf8::encode_utf8(s).len() == 0);
        assert(s.take(0) =~= s);
    } else if byte_len(s) <= n {
        assert(s.take(s.len() as int) =~= s);
    } else {
        lemma_byte_cut_bound(s.drop_last(), n);
        let c = byte_cut_spec(s.drop_last(), n);
        assert(s.take(c.len() as int) =~= s.drop_last().take(c.len() as int));
    }
}

/// The longest prefix within the bound is what the cut leaves.
proof fn lemma_longest_fit_is_cut(s: Seq<char>, n: nat, i: int)
    requires
        0 <= i <= s.len(),
        byte_len(s.take(i)) <= n,
        forall|j: int| i < j <= s.len() ==> byte_len(#[trigger] s.take(j)) > n,
    ensures
        byte_cut_spec(s, n) == s.take(i),
    decreases s.len(),
{
    if s.len() == i {
        assert(s.take(i) =~= s);
    } else {
        assert(s.take(s.len() as int) =~= s);
        assert(byte_len(s.take(s.len() as int)) > n);
        let d = s.drop_last();
        assert(d.take(i) =~= s.take(i));
        assert forall|j: int| i < j <= d.len() implies byte_len(#[trigger] d.take(j)) > n by {
            assert(d.take(j) =~= s.take(j));
        }
        lemma_longest_fit_is_cut(d, n, i);
    }
}

/// A note body cut to at most `n` bytes, as the item limit cuts it: the
/// longest prefix whose UTF-8 encoding fits.
pub fn byte_cut(value: &str, n: usize) -> (r: String)
    ensures
        r@ == byte_cut_spec(value@, n as nat),
        byte_len(r@) <= n,
        value@.take(r@.len() as int) == r@,
{
    let c = chars_of(value);
    let mut out = String::new();
    let mut i: usize = 0;
    assert(c@.take(0) =~= Seq::<char>::empty());
    assert(vstd::utf8::encode_utf8(Seq::<char>::empty()).len() == 0);
    while i < c.len()
        invariant
            c@ == value@,
            i <= c@.len(),
            out@ == c@.take(i as int),
            byte_len(out@) <= n,
        ensures
            i <= c@.len(),
            out@ == c@.take(i as int),
            byte_len(out@) <= n,
            i < c@.len() ==> byte_len(c@.take(i + 1)) > n,
        decreases c.len() - i,
    {
        let mut t = out.clone();
        push_char(&mut t, c[i]);
        assert(t@ =~= c@.take(i + 1));
        if t.as_str().as_bytes().len() > n {
            break;
        }
        out = t;
        i = i + 1;
    }
    proof {
        assert forall|j: int| i < j <= c@.len() implies byte_len(#[trigger] c@.take(j)) > n by {
            lemma_encode_concat(c@.take(i + 1), c@.subrange(i + 1, j));
            assert(c@.take(j) =~= c@.take(i + 1) + c@.subrange(i + 1, j));
        }
        lemma_longest_fit_is_cut(c@, n as nat, i as int);
        lemma_byte_cut_bound(c@, n as nat);
    }
    out
}

/// At most this many bytes of one note's body are offered.
pub const ITEM_BYTES: usize = 1024;

/// A memory note read back for context: its path and revision as the
/// journal lists them, the revision's bytes, and the token units of the
/// note's body once it is cut to the item limits (counted by the caller).
pub struct MemoryCandidate {
    pub path: String,
    pub revision: String,
    pub content: Vec<u8>,
    pub units: u64,
}

pub struct CandidateView {
    pub path: Seq<char>,
    pub revision: Seq<char>,
    /// The note's key, its body cut to `ITEM_BYTES`, and its units; none
    /// when the note does not parse.
    pub note: Option<(Seq<char>, Seq<char>, nat)>,
}

/// The key, the body cut to `ITEM_BYTES`, and the units of a note with
/// this path and content; none when it does not parse.
#[verifier::opaque]
pub open spec fn note_of(path: Seq<char>, content: Seq<u8>, units: nat) -> Option<(Seq<char>, Seq<char>, nat)> {
    match parse_spec(path, content) {
        Some((k, b)) => Some((k, byte_cut_spec(b, ITEM_BYTES as nat), units)),
        None => None,
    }
}

impl View for MemoryCandidate {
    type V = CandidateView;

    open spec fn view(&self) -> CandidateView {
        CandidateView {
            path: self.path@,
            revision: self.revision@,
            note: note_of(self.path@, self.content@, self.units as nat),
        }
    }
}

fn candidate_note(row: &MemoryCandidate) -> (r: Option<(String, String, u64)>)
    ensures
        match r {
            Some((k, b, u)) => row@.note == Some((k@, b@, u as nat)) && byte_len(b@) <= ITEM_BYTES,
            None => row@.note is None,
        },
{
    proof {
        reveal(note_of);
    }
    match parse(row.path.as_str(), row.content.as_slice()) {
        Some((k, b)) => Some((k, byte_cut(b.as_str(), ITEM_BYTES), row.units)),
        None => None,
    }
}

/// A memory note admitted as context.
pub struct MemoryItem {
    /// `memory-REVISION`.
    pub id: String,
    pub semantic_key: String,
    pub body: String,
    /// The note's path.
    pub source_id: String,
    /// The note's revision.
    pub source_fingerprint: String,
}

/// At most this many notes are offered.
pub const ITEM_LIMIT: usize = 4;
/// At most this many bytes of bodies in all.
pub const TOTAL_BYTES: usize = 2048;
/// At most this many token units of bodies in all.
pub const TOTAL_UNITS: u64 = 512;

/// The state of a selection after some candidates.
pub struct Selection {
    /// The (key, revision) pairs met so far.
    pub seen: Set<(Seq<char>, Seq<char>)>,
    pub bytes: nat,
    pub units: nat,
    /// The admitted notes: id, key, body, path, revision.
    pub items: Seq<(Seq<char>, Seq<char>, Seq<char>, Seq<char>, Seq<char>)>,
    /// A note did not fit: no later note is considered.
    pub stopped: bool,
}

pub open spec fn byte_len(s: Seq<char>) -> nat {
    vstd::utf8::encode_utf8(s).len()
}

/// The candidates are taken in order: notes that do not parse, whose key
/// the objective corrects, or whose key and revision came before are
/// passed over; the first note that would exceed the count, byte or unit
/// limit ends the selection.
pub open spec fn select_upto(rows: Seq<CandidateView>, corrections: Seq<Seq<char>>, n: int) -> Selection
    decreases n,
{
    if n <= 0 || n > rows.len() {
        Selection { seen: Set::empty(), bytes: 0, units: 0, items: Seq::empty(), stopped: false }
    } else {
        let s = select_upto(rows, corrections, n - 1);
        let row = rows[n - 1];
        if s.stopped {
            s
        } else {
            match row.note {
                None => s,
                Some((k, b, c)) => if corrections.contains(k) || s.seen.contains((k, row.revision)) {
                    s
                } else if s.items.len() == ITEM_LIMIT || s.bytes + byte_len(b) > TOTAL_BYTES
                    || s.units + c > TOTAL_UNITS {
                    Selection { stopped: true, ..s }
                } else {
                    Selection {
                        seen: s.seen.insert((k, row.revision)),
                        bytes: s.bytes + byte_len(b),
                        units: s.units + c,
                        items: s.items.push(("memory-"@ + row.revision, k, b, row.path, row.revision)),
                        stopped: false,
                    }
                },
            }
        }
    }
}

pub open spec fn item_views(v: Seq<MemoryItem>) -> Seq<(Seq<char>, Seq<char>, Seq<char>, Seq<char>, Seq<char>)> {
    Seq::new(v.len(), |i: int| (v[i].id@, v[i].semantic_key@, v[i].body@, v[i].source_id@, v[i].source_fingerprint@))
}

pub open spec fn pair_views(v: Seq<(String, String)>) -> Seq<(Seq<char>, Seq<char>)> {
    Seq::new(v.len(), |i: int| (v[i].0@, v[i].1@))
}

fn seen_contains(seen: &Vec<(String, String)>, k: &str, rev: &str) -> (r: bool)
    ensures
        r == pair_views(seen@).contains((k@, rev@)),
{
    for i in 0..seen.len()
        invariant
            forall|j: int| 0 <= j < i ==> #[trigger] pair_views(seen@)[j] != (k@, rev@),
    {
        if crate::text::str_eq(seen[i].0.as_str(), k) && crate::text::str_eq(seen[i].1.as_str(), rev) {
            assert(pair_views(seen@)[i as int] == (k@, rev@));
            return true;
        }
    }
    false
}

fn key_corrected(corrections: &Vec<String>, k: &str) -> (r: bool)
    ensures
        r == views(corrections@).contains(k@),
{
    for i in 0..corrections.len()
        invariant
            forall|j: int| 0 <= j < i ==> #[trigger] corrections@[j]@ != k@,
    {
        if crate::text::str_eq(corrections[i].as_str(), k) {
            assert(views(corrections@)[i as int] == k@);
            return true;
        }
    }
    proof {
        if views(corrections@).contains(k@) {
            let j = choose|j: int| 0 <= j < views(corrections@).len() && views(corrections@)[j] == k@;
            assert(corrections@[j]@ == k@);
        }
    }
    false
}

/// The memory notes offered as context for an objective whose corrected
/// keys are `corrections`, from the candidate notes in path and revision
/// order.
pub fn select_memory(rows: &Vec<MemoryCandidate>, corrections: &Vec<String>) -> (r: Vec<MemoryItem>)
    ensures
        item_views(r@) == select_upto(
            Seq::new(rows@.len(), |i: int| rows@[i]@),
            views(corrections@),
            rows@.len() as int,
        ).items,
        r@.len() <= ITEM_LIMIT,
        forall|i: int| 0 <= i < r@.len() ==> byte_len(#[trigger] r@[i].body@) <= ITEM_BYTES,
{
    let ghost rv = Seq::new(rows@.len(), |i: int| rows@[i]@);
    let ghost cv = views(corrections@);
    let mut seen: Vec<(String, String)> = Vec::new();
    let mut bytes: usize = 0;
    let mut units: u64 = 0;
    let mut out: Vec<MemoryItem> = Vec::new();
    let mut i: usize = 0;
    while i < rows.len()
        invariant
            i <= rows@.len(),
            rv == Seq::new(rows@.len(), |j: int| rows@[j]@),
            cv == views(corrections@),
            !select_upto(rv, cv, i as int).stopped,
            bytes as nat == select_upto(rv, cv, i as int).bytes,
            units as nat == select_upto(rv, cv, i as int).units,
            bytes <= TOTAL_BYTES,
            units <= TOTAL_UNITS,
            out@.len() <= ITEM_LIMIT,
            forall|k: int| 0 <= k < out@.len() ==> byte_len(#[trigger] out@[k].body@) <= ITEM_BYTES,
            item_views(out@) == select_upto(rv, cv, i as int).items,
            forall|p: (Seq<char>, Seq<char>)|
                select_upto(rv, cv, i as int).seen.contains(p) <==> #[trigger] pair_views(seen@).contains(p),
        ensures
            item_views(out@) == select_upto(rv, cv, rows@.len() as int).items,
            out@.len() <= ITEM_LIMIT,
            forall|k: int| 0 <= k < out@.len() ==> byte_len(#[trigger] out@[k].body@) <= ITEM_BYTES,
        decreases rows.len() - i,
    {
        let ghost s = select_upto(rv, cv, i as int);
        assert(rv[i as int] == rows@[i as int]@);
        let row = &rows[i];
        let note = candidate_note(row);
        match &note {
            None => {
                assert(select_upto(rv, cv, i + 1) == s);
            },
            Some((k, b, c)) => {
                let seen_before = seen_contains(&seen, k.as_str(), row.revision.as_str());
                assert(seen_before == s.seen.contains((k@, row.revision@)));
                if key_corrected(corrections, k.as_str()) || seen_before {
                    assert(select_upto(rv, cv, i + 1) == s);
                } else {
                    let blen = b.as_str().as_bytes().len();
                    assert(blen as nat == byte_len(b@));
                    if out.len() == ITEM_LIMIT || blen > TOTAL_BYTES - bytes || *c > TOTAL_UNITS - units {
                        proof {
                            assert(select_upto(rv, cv, i + 1).stopped);
                            lemma_stopped_stays(rv, cv, i + 1, rows@.len() as int);
                        }
                        break;
                    }
                    let ghost old_seen = pair_views(seen@);
                    assert(forall|p: (Seq<char>, Seq<char>)| s.seen.contains(p) <==> #[trigger] old_seen.contains(p));
                    let ghost next = Selection {
                        seen: s.seen.insert((k@, row.revision@)),
                        bytes: s.bytes + byte_len(b@),
                        units: s.units + (*c as nat),
                        items: s.items.push(("memory-"@ + row.revision@, k@, b@, row.path@, row.revision@)),
                        stopped: false,
                    };
                    assert(select_upto(rv, cv, i + 1) == next);
                    seen.push((owned(k.as_str()), owned(row.revision.as_str())));
                    assert(pair_views(seen@) =~= old_seen.push((k@, row.revision@)));
                    bytes = bytes + blen;
                    units = units + *c;
                    let mut id = owned("memory-");
                    crate::text::push_str(&mut id, row.revision.as_str());
                    out.push(MemoryItem {
                        id,
                        semantic_key: owned(k.as_str()),
                        body: owned(b.as_str()),
                        source_id: owned(row.path.as_str()),
                        source_fingerprint: owned(row.revision.as_str()),
                    });
                    assert(item_views(out@) =~= s.items.push(("memory-"@ + row.revision@, k@, b@, row.path@, row.revision@)));
                    assert forall|p: (Seq<char>, Seq<char>)|
                        select_upto(rv, cv, i + 1).seen.contains(p) <==> #[trigger] pair_views(seen@).contains(p) by {
                        assert(next.seen.contains(p) <==> (s.seen.contains(p) || p == (k@, row.revision@)));
                        if old_seen.contains(p) {
                            let j = choose|j: int| 0 <= j < old_seen.len() && old_seen[j] == p;
                            assert(pair_views(seen@)[j] == p);
                        }
                        if pair_views(seen@).contains(p) && p != (k@, row.revision@) {
                            let j = choose|j: int| 0 <= j < pair_views(seen@).len() && pair_views(seen@)[j] == p;
                            assert(old_seen[j] == p);
                        }
                        if p == (k@, row.revision@) {
                            assert(pair_views(seen@)[old_seen.len() as int] == p);
                        }
                    }
                }
            },
        }
        i = i + 1;
    }
    out
}

/// Once a selection stops, later candidates change nothing.
proof fn lemma_stopped_stays(rows: Seq<CandidateView>, corrections: Seq<Seq<char>>, n: int, m: int)
    requires
        0 <= n <= m <= rows.len(),
        select_upto(rows, corrections, n).stopped,
    ensures
        select_upto(rows, corrections, m) == select_upto(rows, corrections, n),
    decreases m - n,
{
    if m > n {
        lemma_stopped_stays(rows, corrections, n, m - 1);
    }
}


/// Texts that carry credentials or rejected model output.
pub open spec fn prohibited_patterns() -> Seq<Seq<char>> {
    seq![
        "password:"@,
        "password="@,
        "secret:"@,
        "secret="@,
        "token:"@,
        "token="@,
        "api_key:"@,
        "api_key="@,
        "authorization: bearer"@,
        "model-output-rejected"@,
        "raw harness json"@,
    ]
}

pub open spec fn prohibited_spec(value: Seq<char>) -> bool {
    crate::text::contains_any(lower(value), prohibited_patterns())
}

/// Some pattern of `pats` occurs in `s`.
pub fn contains_any_exec(s: &[char], pats: &Vec<&str>) -> (r: bool)
    ensures
        r == exists|k: int| 0 <= k < pats@.len() && contains(s@, (#[trigger] pats@[k])@),
{
    for k in 0..pats.len()
        invariant
            forall|j: int| 0 <= j < k ==> !contains(s@, (#[trigger] pats@[j])@),
    {
        let p = chars_of(pats[k]);
        if contains_exec(s, p.as_slice()) {
            return true;
        }
    }
    false
}

/// The lowered text holds a credential or rejected-output marker.
pub fn prohibited(value: &str) -> (r: bool)
    ensures
        r == prohibited_spec(value@),
{
    let c = chars_of(value);
    let l = lower_exec(c.as_slice());
    let pats: Vec<&str> = vec![
        "password:",
        "password=",
        "secret:",
        "secret=",
        "token:",
        "token=",
        "api_key:",
        "api_key=",
        "authorization: bearer",
        "model-output-rejected",
        "raw harness json",
    ];
    let r = contains_any_exec(l.as_slice(), &pats);
    proof {
        let ps = prohibited_patterns();
        assert(ps.len() == pats@.len());
        assert forall|k: int| 0 <= k < ps.len() implies ps[k] == (#[trigger] pats@[k])@ by {}
        if r {
            let k = choose|k: int| 0 <= k < pats@.len() && contains(l@, (#[trigger] pats@[k])@);
            assert(contains(l@, ps[k]));
        }
        if prohibited_spec(value@) {
            let k = choose|k: int| 0 <= k < ps.len() && contains(lower(value@), #[trigger] ps[k]);
            assert(contains(l@, pats@[k]@));
        }
    }
    r
}

/// The front matter that opens a memory note for `slug`.
pub open spec fn note_prefix(slug: Seq<char>) -> Seq<char> {
    "---\nkind: memory\nsemantic-key: "@ + slug + "\nslug: "@ + slug + "\nsource-fingerprints:\n"@
}

/// The key and body of a memory note stored at `path`, when it is a
/// well-formed, clean note under `knowledge/notes/`.
pub open spec fn parse_spec(path: Seq<char>, bytes: Seq<u8>) -> Option<(Seq<char>, Seq<char>)> {
    if !vstd::utf8::valid_utf8(bytes) {
        None
    } else {
        let text = vstd::utf8::decode_utf8(bytes);
        match strip_prefix(path, "knowledge/notes/"@) {
            None => None,
            Some(p) => match strip_suffix(p, ".md"@) {
                None => None,
                Some(slug) => if !canonical_key(slug) || prohibited_spec(text) {
                    None
                } else {
                    match strip_prefix(text, note_prefix(slug)) {
                        None => None,
                        Some(rest) => match split_once(rest, "\n---\n"@) {
                            None => None,
                            Some((_, body)) => if trim(body).len() == 0 {
                                None
                            } else {
                                Some((slug, body))
                            },
                        },
                    }
                },
            },
        }
    }
}

/// The key and the body (everything after the front matter) of a memory note.
#[verifier::rlimit(30)]
pub fn parse(path: &str, bytes: &[u8]) -> (r: Option<(String, String)>)
    ensures
        match r {
            Some((k, b)) => parse_spec(path@, bytes@) == Some((k@, b@)),
            None => parse_spec(path@, bytes@) is None,
        },
{
    let text = match utf8_text(bytes) {
        Some(t) => t,
        None => return None,
    };
    let p = chars_of(path);
    let dir = chars_of("knowledge/notes/");
    let md = chars_of(".md");
    if !starts_with_exec(p.as_slice(), dir.as_slice()) {
        return None;
    }
    let rest_path = crate::text::slice_chars(p.as_slice(), dir.len(), p.len());
    if !ends_with_exec(rest_path.as_slice(), md.as_slice()) {
        return None;
    }
    let slug = crate::text::slice_chars(rest_path.as_slice(), 0, rest_path.len() - md.len());
    assert(rest_path@.take(rest_path@.len() - md@.len()) == slug@);
    if !canonical_key_exec(slug.as_slice()) || prohibited(text.as_str()) {
        return None;
    }
    let slug_text = string_of(slug.as_slice());
    let mut prefix = owned("---\nkind: memory\nsemantic-key: ");
    crate::text::push_chars(&mut prefix, slug.as_slice());
    crate::text::push_str(&mut prefix, "\nslug: ");
    crate::text::push_chars(&mut prefix, slug.as_slice());
    crate::text::push_str(&mut prefix, "\nsource-fingerprints:\n");
    let pc = chars_of(prefix.as_str());
    let tc = chars_of(text.as_str());
    if !starts_with_exec(tc.as_slice(), pc.as_slice()) {
        return None;
    }
    let rest = crate::text::slice_chars(tc.as_slice(), pc.len(), tc.len());
    let sep = chars_of("\n---\n");
    match split_once_exec(rest.as_slice(), sep.as_slice()) {
        None => None,
        Some((_, body)) => {
            let t = trim_exec(body.as_slice());
            if t.len() == 0 {
                None
            } else {
                Some((slug_text, string_of(body.as_slice())))
            }
        },
    }
}

} // verus!
