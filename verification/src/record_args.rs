//! The `record` command: `add KIND TITLE [--body TEXT]`, `list [KIND]`,
//! `show ID`, `link ID REF` and `archive ID`.
use vstd::prelude::*;
use crate::args::{Command, CommandView, result_view};
use crate::text::{join, join_strings, owned, str_eq, views};

verus! {

/// The title words, the body words, and whether `--body` has been seen:
/// every `--body` is dropped, words before the first go to the title and
/// words after it to the body.
pub open spec fn split_title(parts: Seq<Seq<char>>) -> (Seq<Seq<char>>, Seq<Seq<char>>, bool)
    decreases parts.len(),
{
    if parts.len() == 0 {
        (Seq::empty(), Seq::empty(), false)
    } else {
        let (t, b, in_body) = split_title(parts.drop_last());
        let p = parts.last();
        if p == "--body"@ {
            (t, b, true)
        } else if in_body {
            (t, b.push(p), true)
        } else {
            (t.push(p), b, false)
        }
    }
}

pub open spec fn title_body_spec(parts: Seq<Seq<char>>) -> Result<(Seq<char>, Seq<char>), Seq<char>> {
    let (t, b, _) = split_title(parts);
    if t.len() == 0 {
        Err("record add requires TITLE"@)
    } else {
        Ok((join(t, " "@), join(b, " "@)))
    }
}

/// The title and the body of `record add`, each joined by spaces.
pub fn title_body(parts: &[String]) -> (r: Result<(String, String), String>)
    ensures
        match r {
            Ok(p) => title_body_spec(views(parts@)) == Ok::<(Seq<char>, Seq<char>), Seq<char>>(
                (p.0@, p.1@),
            ),
            Err(e) => title_body_spec(views(parts@)) == Err::<(Seq<char>, Seq<char>), Seq<char>>(
                e@,
            ),
        },
{
    let mut title: Vec<String> = Vec::new();
    let mut body: Vec<String> = Vec::new();
    let mut in_body = false;
    let ghost all = views(parts@);
    for i in 0..parts.len()
        invariant
            all == views(parts@),
            split_title(all.take(i as int)) == (views(title@), views(body@), in_body),
    {
        let ghost next = all.take(i + 1);
        assert(next.drop_last() == all.take(i as int));
        assert(next.last() == parts@[i as int]@);
        if str_eq(parts[i].as_str(), "--body") {
            in_body = true;
        } else if in_body {
            let ghost before = views(body@);
            body.push(parts[i].clone());
            assert(views(body@) == before.push(parts@[i as int]@));
        } else {
            let ghost before = views(title@);
            title.push(parts[i].clone());
            assert(views(title@) == before.push(parts@[i as int]@));
        }
    }
    assert(all.take(parts.len() as int) == all);
    if title.len() == 0 {
        Err(owned("record add requires TITLE"))
    } else {
        Ok((join_strings(&title, " "), join_strings(&body, " ")))
    }
}

pub open spec fn record_spec(rest: Seq<Seq<char>>) -> Result<CommandView, Seq<char>> {
    if rest.len() >= 3 && rest[0] == "add"@ {
        match title_body_spec(rest.skip(2)) {
            Ok((title, body)) => Ok(CommandView::RecordAdd { kind: rest[1], title, body }),
            Err(e) => Err(e),
        }
    } else if rest.len() == 1 && rest[0] == "list"@ {
        Ok(CommandView::RecordList { kind: None })
    } else if rest.len() == 2 && rest[0] == "list"@ {
        Ok(CommandView::RecordList { kind: Some(rest[1]) })
    } else if rest.len() == 2 && rest[0] == "show"@ {
        Ok(CommandView::RecordShow { id: rest[1] })
    } else if rest.len() == 2 && rest[0] == "archive"@ {
        Ok(CommandView::RecordArchive { id: rest[1] })
    } else if rest.len() == 3 && rest[0] == "link"@ {
        Ok(CommandView::RecordLink { id: rest[1], target: rest[2] })
    } else {
        Err(
            "use record add KIND TITLE [--body TEXT] | list [KIND] | show ID | link ID REF | archive ID"@,
        )
    }
}

/// The `record` subcommands.
pub fn parse_record(rest: Vec<String>) -> (r: Result<Command, String>)
    ensures
        result_view(r) == record_spec(views(rest@)),
{
    let n = rest.len();
    if n >= 3 && str_eq(rest[0].as_str(), "add") {
        let tail = crate::args::tail_from(&rest, 2);
        return match title_body(tail.as_slice()) {
            Ok((title, body)) => Ok(Command::RecordAdd { kind: rest[1].clone(), title, body }),
            Err(e) => Err(e),
        };
    }
    if n == 1 && str_eq(rest[0].as_str(), "list") {
        Ok(Command::RecordList { kind: None })
    } else if n == 2 && str_eq(rest[0].as_str(), "list") {
        Ok(Command::RecordList { kind: Some(rest[1].clone()) })
    } else if n == 2 && str_eq(rest[0].as_str(), "show") {
        Ok(Command::RecordShow { id: rest[1].clone() })
    } else if n == 2 && str_eq(rest[0].as_str(), "archive") {
        Ok(Command::RecordArchive { id: rest[1].clone() })
    } else if n == 3 && str_eq(rest[0].as_str(), "link") {
        Ok(Command::RecordLink { id: rest[1].clone(), target: rest[2].clone() })
    } else {
        Err(
            owned(
                "use record add KIND TITLE [--body TEXT] | list [KIND] | show ID | link ID REF | archive ID",
            ),
        )
    }
}

} // verus!
