//! What a model endpoint returns, and the scripted endpoint that replays
//! prepared outputs.
use vstd::prelude::*;
use crate::text::{chars_of, lines, lines_exec, owned, replace_exec, replace_from, string_of, strip_prefix, strip_prefix_exec, trim, trim_exec};

verus! {

/// One completion and what the provider reported about it.
#[derive(Debug, Clone, PartialEq, Eq)]
pub struct CompletionRecord {
    pub content: String,
    pub prompt_tokens: Option<u32>,
    pub completion_tokens: Option<u32>,
    pub cached_tokens: Option<u32>,
    pub finish_reason: String,
    pub closure_mode: String,
    pub cache_metrics: Vec<(String, String)>,
    pub anomaly: Option<String>,
}

impl CompletionRecord {
    /// A record of scripted output: nothing measured, finish reason `scripted`.
    pub fn scripted(content: String) -> (r: Self)
        ensures
            r.content@ == content@,
            r.prompt_tokens is None,
            r.completion_tokens is None,
            r.cached_tokens is None,
            r.finish_reason@ == "scripted"@,
            r.closure_mode@ == "unknown"@,
            r.cache_metrics@.len() == 0,
            r.anomaly is None,
    {
        CompletionRecord {
            content,
            prompt_tokens: None,
            completion_tokens: None,
            cached_tokens: None,
            finish_reason: owned("scripted"),
            closure_mode: owned("unknown"),
            cache_metrics: Vec::new(),
            anomaly: None,
        }
    }
}

/// A prompt as the endpoints see it.
pub struct Prompt {
    pub system: String,
    pub user: String,
}

/// The rest of the first line (of `ls`) that, trimmed, starts with `prefix`.
pub open spec fn first_value(ls: Seq<Seq<char>>, prefix: Seq<char>) -> Seq<char>
    decreases ls.len(),
{
    if ls.len() == 0 {
        Seq::empty()
    } else {
        match strip_prefix(trim(ls[0]), prefix) {
            Some(rest) => rest,
            None => first_value(ls.drop_first(), prefix),
        }
    }
}

/// A value that the prompt states on a `PREFIX value` line, the user part
/// read before the system part; empty when there is none.
pub open spec fn prompt_value_spec(user: Seq<char>, system: Seq<char>, prefix: Seq<char>) -> Seq<char> {
    first_value(lines(user) + lines(system), prefix)
}

fn first_value_in(ls: &Vec<Vec<char>>, prefix: &[char]) -> (r: Option<Vec<char>>)
    ensures
        match r {
            Some(v) => exists|i: int| 0 <= i < ls@.len() && strip_prefix(trim(ls@[i]@), prefix@) == Some(v@) && forall|j: int| 0 <= j < i ==> strip_prefix(trim(#[trigger] ls@[j]@), prefix@) is None,
            None => forall|j: int| 0 <= j < ls@.len() ==> strip_prefix(trim(#[trigger] ls@[j]@), prefix@) is None,
        },
{
    for i in 0..ls.len()
        invariant
            forall|j: int| 0 <= j < i ==> strip_prefix(trim(#[trigger] ls@[j]@), prefix@) is None,
    {
        let t = trim_exec(ls[i].as_slice());
        match strip_prefix_exec(t.as_slice(), prefix) {
            Some(rest) => {
                return Some(rest);
            },
            None => {},
        }
    }
    None
}

proof fn lemma_first_value(ls: Seq<Seq<char>>, prefix: Seq<char>, i: int)
    requires
        0 <= i <= ls.len(),
        forall|j: int| 0 <= j < i ==> strip_prefix(trim(#[trigger] ls[j]), prefix) is None,
    ensures
        first_value(ls, prefix) == first_value(ls.skip(i), prefix),
    decreases i,
{
    if i > 0 {
        assert(strip_prefix(trim(ls[0]), prefix) is None);
        assert(ls.drop_first().skip(i - 1) == ls.skip(i));
        lemma_first_value(ls.drop_first(), prefix, i - 1);
    } else {
        assert(ls.skip(0) == ls);
    }
}

/// The value the prompt gives on a line starting with `prefix`.
pub fn prompt_value(prompt: &Prompt, prefix: &str) -> (r: String)
    ensures
        r@ == prompt_value_spec(prompt.user@, prompt.system@, prefix@),
{
    let uc = chars_of(prompt.user.as_str());
    let sc = chars_of(prompt.system.as_str());
    let mut ls = lines_exec(uc.as_slice());
    let mut more = lines_exec(sc.as_slice());
    let ghost lu = ls@;
    let ghost lsy = more@;
    ls.append(&mut more);
    let ghost all = lines(prompt.user@) + lines(prompt.system@);
    assert(ls@.len() == all.len());
    assert forall|k: int| 0 <= k < ls@.len() implies #[trigger] ls@[k]@ == all[k] by {
        if k < lu.len() {
            assert(ls@[k] == lu[k]);
        } else {
            assert(ls@[k] == lsy[k - lu.len()]);
        }
    }
    let p = chars_of(prefix);
    match first_value_in(&ls, p.as_slice()) {
        Some(v) => {
            proof {
                let i = choose|i: int| 0 <= i < ls@.len() && strip_prefix(trim(ls@[i]@), p@) == Some(v@) && forall|j: int| 0 <= j < i ==> strip_prefix(trim(#[trigger] ls@[j]@), p@) is None;
                assert forall|j: int| 0 <= j < i implies strip_prefix(trim(#[trigger] all[j]), p@) is None by {
                    assert(ls@[j]@ == all[j]);
                }
                lemma_first_value(all, p@, i);
                assert(all.skip(i)[0] == all[i]);
            }
            string_of(v.as_slice())
        },
        None => {
            proof {
                assert forall|j: int| 0 <= j < all.len() implies strip_prefix(trim(#[trigger] all[j]), p@) is None by {
                    assert(ls@[j]@ == all[j]);
                }
                lemma_first_value(all, p@, all.len() as int);
            }
            String::new()
        },
    }
}

/// The output with the decision id and context fingerprint that the
/// prompt states put in place of their markers.
pub open spec fn fill_spec(output: Seq<char>, user: Seq<char>, system: Seq<char>) -> Seq<char> {
    let once = replace_from(output, "__DECISION_ID__"@, prompt_value_spec(user, system, "- decision_id: "@), 0);
    replace_from(once, "__CONTEXT_FRAME_FINGERPRINT__"@, prompt_value_spec(user, system, "- context_fingerprint: "@), 0)
}

/// Fills the markers of a scripted output from the prompt.
pub fn fill_prompt_markers(output: &str, prompt: &Prompt) -> (r: String)
    ensures
        r@ == fill_spec(output@, prompt.user@, prompt.system@),
{
    let decision = prompt_value(prompt, "- decision_id: ");
    let context = prompt_value(prompt, "- context_fingerprint: ");
    let o = chars_of(output);
    let m1 = chars_of("__DECISION_ID__");
    let m2 = chars_of("__CONTEXT_FRAME_FINGERPRINT__");
    proof {
        reveal_strlit("__DECISION_ID__");
        reveal_strlit("__CONTEXT_FRAME_FINGERPRINT__");
    }
    let d = chars_of(decision.as_str());
    let c = chars_of(context.as_str());
    let once = replace_exec(o.as_slice(), m1.as_slice(), d.as_slice());
    let twice = replace_exec(once.as_slice(), m2.as_slice(), c.as_slice());
    string_of(twice.as_slice())
}

/// An endpoint that replays prepared outputs in order.
#[derive(Debug, Clone)]
pub struct ScriptedEndpoint {
    pub outputs: Vec<String>,
    pub index: usize,
}

impl ScriptedEndpoint {
    /// The next prepared output, its markers filled from the prompt; an
    /// error once all have been used.
    pub fn complete(&mut self, prompt: &Prompt) -> (r: Result<CompletionRecord, String>)
        ensures
            final(self).outputs@ == old(self).outputs@,
            old(self).index < old(self).outputs@.len() ==> {
                &&& r matches Ok(rec)
                &&& rec.content@ == fill_spec(old(self).outputs@[old(self).index as int]@, prompt.user@, prompt.system@)
                &&& rec.finish_reason@ == "scripted"@
                &&& rec.prompt_tokens is None
                &&& rec.completion_tokens is None
                &&& rec.cached_tokens is None
                &&& rec.closure_mode@ == "unknown"@
                &&& rec.cache_metrics@.len() == 0
                &&& rec.anomaly is None
                &&& final(self).index == old(self).index + 1
            },
            old(self).index >= old(self).outputs@.len() ==> {
                &&& r matches Err(e)
                &&& e@ == "scripted endpoint exhausted"@
                &&& final(self).index == old(self).index
            },
    {
        if self.index >= self.outputs.len() {
            return Err(owned("scripted endpoint exhausted"));
        }
        let filled = fill_prompt_markers(self.outputs[self.index].as_str(), prompt);
        self.index = self.index + 1;
        Ok(CompletionRecord::scripted(filled))
    }
}

/// A model endpoint: it completes a prompt (the attempt number counts
/// retries of one call) and may bound how long a call takes.
pub trait Endpoint {
    fn complete(&mut self, prompt: &Prompt, attempt: u32) -> Result<CompletionRecord, String>;

    fn timeout_seconds(&self) -> Option<u64> {
        None
    }
}

impl Endpoint for ScriptedEndpoint {
    fn complete(&mut self, prompt: &Prompt, attempt: u32) -> Result<CompletionRecord, String> {
        ScriptedEndpoint::complete(self, prompt)
    }
}

/// The endpoint that calls the configured model server.
#[derive(Debug, Clone)]
pub struct LlmEndpoint {
    data_dir: String,
}

impl LlmEndpoint {
    /// The data directory whose configuration the endpoint reads.
    pub closed spec fn dir(&self) -> Seq<char> {
        self.data_dir@
    }

    /// An endpoint for the data directory `data_dir`.
    pub fn new(data_dir: &str) -> (r: Self)
        ensures
            r.dir() == data_dir@,
    {
        LlmEndpoint { data_dir: owned(data_dir) }
    }

    /// The data directory.
    pub fn data_dir(&self) -> (r: &str)
        ensures
            r@ == self.dir(),
    {
        self.data_dir.as_str()
    }
}

/// A token count clamped to `u32`.
pub fn u32_opt(value: Option<u64>) -> (r: Option<u32>)
    ensures
        r == match value {
            Some(v) => Some(if v > u32::MAX { u32::MAX } else { v as u32 }),
            None => None::<u32>,
        },
{
    match value {
        Some(v) => Some(if v > 0xffff_ffff { 0xffff_ffff } else { v as u32 }),
        None => None,
    }
}

/// The output budget sent to the model server: the prompt's, clamped to
/// what a `u16` holds.
pub fn call_max_tokens(max_tokens: u64) -> (r: u16)
    ensures
        r == if max_tokens > u16::MAX { u16::MAX } else { max_tokens as u16 },
{
    if max_tokens > 0xffff {
        0xffff
    } else {
        max_tokens as u16
    }
}

} // verus!
