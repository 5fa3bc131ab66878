//! Where a file effect lands: the directories to walk and the file name,
//! and which of the four file operations a revision asks for.
use vstd::prelude::*;
use crate::artifact_effects::normal_parts;
use crate::report_shape::{split_chars, split_on};
use crate::text::{chars_eq, chars_of, owned, string_of, views};

verus! {

/// The path is not a plain relative path: it is absolute, starts with `.`,
/// or has a `..` component.
pub open spec fn not_normal(path: Seq<char>) -> bool {
    ||| (path.len() > 0 && path[0] == '/')
    ||| split_on(path, '/')[0] == "."@
    ||| exists|i: int| 0 <= i < split_on(path, '/').len() && #[trigger] split_on(path, '/')[i] == ".."@
}

/// The directories and the file name of an effect path, as
/// `Path::components` reads it: empty components and inner `.` drop out.
pub open spec fn effect_path_spec(path: Seq<char>) -> Result<(Seq<Seq<char>>, Seq<char>), Seq<char>> {
    if not_normal(path) {
        Err("effect path is not normalized"@)
    } else {
        let parts = normal_parts(split_on(path, '/'));
        if parts.len() == 0 {
            Err("effect path has no file name"@)
        } else {
            Ok((parts.drop_last(), parts.last()))
        }
    }
}

/// The directories to open, in order, and the name of the file in the last.
pub fn effect_path(path: &str) -> (r: Result<(Vec<String>, String), String>)
    ensures
        match r {
            Ok((dirs, name)) => effect_path_spec(path@) == Ok::<(Seq<Seq<char>>, Seq<char>), Seq<char>>((views(dirs@), name@)),
            Err(e) => effect_path_spec(path@) == Err::<(Seq<Seq<char>>, Seq<char>), Seq<char>>(e@),
        },
{
    let c = chars_of(path);
    let pieces = split_chars(c.as_slice(), '/');
    let ghost all = split_on(path@, '/');
    let dot = chars_of(".");
    let up = chars_of("..");
    proof {
        crate::report_shape::lemma_split_nonempty(path@, '/');
    }
    if (c.len() > 0 && c[0] == '/') || chars_eq(pieces[0].as_slice(), dot.as_slice()) {
        return Err(owned("effect path is not normalized"));
    }
    let mut parts: Vec<String> = Vec::new();
    for i in 0..pieces.len()
        invariant
            c@ == path@,
            all == split_on(path@, '/'),
            dot@ == "."@,
            up@ == ".."@,
            pieces@.len() == all.len(),
            all.len() >= 1,
            !(path@.len() > 0 && path@[0] == '/'),
            all[0] != "."@,
            forall|k: int| 0 <= k < pieces@.len() ==> #[trigger] pieces@[k]@ == all[k],
            forall|k: int| 0 <= k < i ==> all[k] != ".."@,
            views(parts@) == normal_parts(all.take(i as int)),
    {
        assert(all.take(i + 1).drop_last() == all.take(i as int));
        assert(all.take(i + 1).last() == pieces@[i as int]@);
        let p = pieces[i].as_slice();
        if chars_eq(p, up.as_slice()) {
            assert(all[i as int] == ".."@);
            return Err(owned("effect path is not normalized"));
        }
        if p.len() > 0 && !chars_eq(p, dot.as_slice()) {
            let ghost before = views(parts@);
            parts.push(string_of(p));
            assert(views(parts@) == before.push(pieces@[i as int]@));
        }
    }
    assert(all.take(all.len() as int) == all);
    assert(!not_normal(path@));
    let ghost whole = views(parts@);
    let name = match parts.pop() {
        None => return Err(owned("effect path has no file name")),
        Some(n) => n,
    };
    assert(views(parts@) == whole.drop_last());
    assert(name@ == whole.last());
    Ok((parts, name))
}

/// What applying a revision does to its target.
#[derive(Debug, PartialEq, Eq, Structural, Clone, Copy)]
pub enum RevisionStep {
    /// Nothing was there and nothing is wanted: check that it stays so.
    EnsureAbsent,
    /// Nothing was there: create the file.
    Create,
    /// The expected bytes are there: swap in the intended ones.
    Replace,
    /// The expected bytes are there and nothing is wanted: remove them.
    Remove,
}

/// The step for a revision with or without expected and intended bytes.
pub fn revision_step(expected: bool, intended: bool) -> (r: RevisionStep)
    ensures
        r == (if expected {
            if intended { RevisionStep::Replace } else { RevisionStep::Remove }
        } else {
            if intended { RevisionStep::Create } else { RevisionStep::EnsureAbsent }
        }),
{
    match (expected, intended) {
        (false, false) => RevisionStep::EnsureAbsent,
        (false, true) => RevisionStep::Create,
        (true, true) => RevisionStep::Replace,
        (true, false) => RevisionStep::Remove,
    }
}

} // verus!
