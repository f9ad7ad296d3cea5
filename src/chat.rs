//! Retrieval-augmented chat: which ranked snippets are cited and how the
//! generation prompt is put together from them.

use vstd::prelude::*;

use crate::models::{SnippetContext, SnippetSource, SnippetSummary};
use crate::ranking::{score_at_least, score_order};
use crate::text::{append_decimal, decimal};

verus! {

/// The relevance threshold `0.3`, as the bit pattern of the `f64`.
pub const RELEVANCE_THRESHOLD_BITS: u64 = 0x3FD3_3333_3333_3333;

/// How many of the best-ranked snippets are considered before the threshold
/// is applied.
pub const CANDIDATE_POOL: usize = 5;

/// A ranked snippet offered to the chat, with its similarity score (the bit
/// pattern of the `f64`) and that score as a whole percentage, rounded.
#[derive(Clone, Debug)]
pub struct ChatCandidate {
    pub snippet: SnippetSummary,
    pub score_bits: u64,
    pub relevance_percent: i64,
}

/// Whether a score reaches the threshold (inclusive).
pub open spec fn is_relevant(score_bits: u64) -> bool {
    score_order(score_bits) >= score_order(RELEVANCE_THRESHOLD_BITS)
}

pub open spec fn source_of(c: ChatCandidate) -> SnippetSource {
    SnippetSource { id: c.snippet.id, title: c.snippet.title, score_bits: c.score_bits }
}

/// The sources cited for a pool of candidates: those that reach the
/// threshold, in pool order.
pub open spec fn cited(s: Seq<ChatCandidate>) -> Seq<SnippetSource>
    decreases s.len(),
{
    if s.len() == 0 {
        Seq::empty()
    } else if is_relevant(s.last().score_bits) {
        cited(s.drop_last()).push(source_of(s.last()))
    } else {
        cited(s.drop_last())
    }
}

pub open spec fn preview_text(preview: Option<String>) -> Seq<char> {
    match preview {
        Some(code) => "**Code preview:** ```\n"@ + code@ + "\n```"@,
        None => Seq::empty(),
    }
}

/// The text block that presents one candidate to the model.
pub open spec fn block_text(c: ChatCandidate) -> Seq<char> {
    "### "@ + c.snippet.title@ + " (Relevance: "@ + decimal(c.relevance_percent as int) + "%)\n**Problem:** "@
        + c.snippet.problem@ + "\n"@ + preview_text(c.snippet.code_preview)
}

/// The blocks of the candidates that reach the threshold, in pool order.
pub open spec fn relevant_blocks(s: Seq<ChatCandidate>) -> Seq<Seq<char>>
    decreases s.len(),
{
    if s.len() == 0 {
        Seq::empty()
    } else if is_relevant(s.last().score_bits) {
        relevant_blocks(s.drop_last()).push(block_text(s.last()))
    } else {
        relevant_blocks(s.drop_last())
    }
}

/// Blocks separated by blank lines.
pub open spec fn joined(b: Seq<Seq<char>>) -> Seq<char>
    decreases b.len(),
{
    if b.len() == 0 {
        Seq::empty()
    } else if b.len() == 1 {
        b[0]
    } else {
        joined(b.drop_last()) + "\n\n"@ + b.last()
    }
}

/// The retrieved material put in the prompt: the relevant blocks, or a
/// placeholder saying that nothing relevant was found.
pub open spec fn context_text(s: Seq<ChatCandidate>) -> Seq<char> {
    if relevant_blocks(s).len() == 0 {
        "No relevant snippets found in the knowledge base."@
    } else {
        joined(relevant_blocks(s))
    }
}

/// The section describing the snippet the user is viewing, if any.
pub open spec fn section_text(ctx: Option<SnippetContext>) -> Seq<char> {
    match ctx {
        Some(c) => "\n\nThe user is currently viewing this snippet:\n**Title:** "@ + c.title@ + "\n**Problem:** "@
            + c.problem@ + "\n"@
            + match c.solution {
                Some(s) => "**Solution:** "@ + s@ + "\n"@,
                None => Seq::empty(),
            }
            + match c.code {
                Some(k) => "**Code:**\n```\n"@ + k@ + "\n```\n"@,
                None => Seq::empty(),
            }
            + "\n"@,
        None => Seq::empty(),
    }
}

/// The whole generation prompt of a chat request.
pub open spec fn prompt_text(message: Seq<char>, s: Seq<ChatCandidate>, ctx: Option<SnippetContext>) -> Seq<char> {
    "You are a recall assistant for a developer's code snippet knowledge base.
The user has previously recorded solutions to programming problems.
Your job is to help them find and recall relevant information from their notes.

Based on the following relevant snippets from their knowledge base, answer the user's question.
If no relevant snippets are found, let the user know.
Always reference which snippet(s) you're drawing from.

## Relevant snippets from knowledge base:
"@ + context_text(s) + "\n"@ + section_text(ctx) + "\n## User question:\n"@ + message + "\n\n## Your answer:"@
}

/// Every candidate that reaches the threshold is cited, one at exactly the
/// threshold included; when none reaches it, nothing is cited and the prompt
/// carries the placeholder instead of retrieved material.
pub proof fn lemma_threshold_filter(s: Seq<ChatCandidate>)
    ensures
        forall|i: int| 0 <= i < s.len() && is_relevant(#[trigger] s[i].score_bits) ==> cited(s).contains(source_of(s[i])),
        forall|i: int| 0 <= i < s.len() && s[i].score_bits == RELEVANCE_THRESHOLD_BITS ==> #[trigger] cited(s).contains(source_of(s[i])),
        (forall|i: int| 0 <= i < s.len() ==> !is_relevant(#[trigger] s[i].score_bits)) ==> cited(s).len() == 0
            && context_text(s) == "No relevant snippets found in the knowledge base."@,
    decreases s.len(),
{
    if s.len() > 0 {
        let t = s.drop_last();
        lemma_threshold_filter(t);
        assert forall|i: int| 0 <= i < s.len() && is_relevant(#[trigger] s[i].score_bits) implies cited(s).contains(source_of(s[i])) by {
            if i < s.len() - 1 {
                assert(t[i] == s[i]);
                assert(t[i].score_bits == s[i].score_bits);
                assert(cited(t).contains(source_of(t[i])));
                let k = choose|k: int| 0 <= k < cited(t).len() && cited(t)[k] == source_of(t[i]);
                assert(cited(s)[k] == cited(t)[k]);
            } else {
                assert(cited(s).last() == source_of(s[i]));
            }
        }
        if forall|i: int| 0 <= i < s.len() ==> !is_relevant(#[trigger] s[i].score_bits) {
            assert forall|i: int| 0 <= i < t.len() implies !is_relevant(#[trigger] t[i].score_bits) by {
                assert(t[i] == s[i]);
            }
            assert(!is_relevant(s[s.len() - 1].score_bits));
            lemma_blocks_match_cited(s);
        }
    } else {
        lemma_blocks_match_cited(s);
    }
}

proof fn lemma_blocks_match_cited(s: Seq<ChatCandidate>)
    ensures
        relevant_blocks(s).len() == cited(s).len(),
    decreases s.len(),
{
    if s.len() > 0 {
        lemma_blocks_match_cited(s.drop_last());
    }
}

/// Whether a score reaches the relevance threshold.
pub fn relevant(score_bits: u64) -> (r: bool)
    ensures
        r == is_relevant(score_bits),
{
    score_at_least(score_bits, RELEVANCE_THRESHOLD_BITS)
}

/// The sources cited by a chat answer: the candidates of the pool whose score
/// reaches the threshold, in the pool's order.
pub fn chat_sources(similar: &Vec<ChatCandidate>) -> (r: Vec<SnippetSource>)
    ensures
        r@ == cited(similar@),
{
    let mut out: Vec<SnippetSource> = Vec::new();
    let mut i: usize = 0;
    while i < similar.len()
        invariant
            i <= similar@.len(),
            out@ == cited(similar@.take(i as int)),
        decreases similar@.len() - i,
    {
        proof {
            assert(similar@.take(i + 1).drop_last() =~= similar@.take(i as int));
        }
        let c = &similar[i];
        if relevant(c.score_bits) {
            out.push(SnippetSource {
                id: c.snippet.id.clone(),
                title: c.snippet.title.clone(),
                score_bits: c.score_bits,
            });
        }
        i = i + 1;
    }
    proof {
        assert(similar@.take(similar@.len() as int) =~= similar@);
    }
    out
}

fn append_block(out: &mut String, c: &ChatCandidate)
    ensures
        final(out)@ == old(out)@ + block_text(*c),
{
    out.append("### ");
    out.append(c.snippet.title.as_str());
    out.append(" (Relevance: ");
    append_decimal(out, c.relevance_percent);
    out.append("%)\n**Problem:** ");
    out.append(c.snippet.problem.as_str());
    out.append("\n");
    match &c.snippet.code_preview {
        Some(code) => {
            out.append("**Code preview:** ```\n");
            out.append(code.as_str());
            out.append("\n```");
        },
        None => {},
    }
    proof {
        assert(final(out)@ =~= old(out)@ + block_text(*c));
    }
}

/// The retrieved material of the prompt: one block per candidate that reaches
/// the threshold, separated by blank lines, or a placeholder when none does.
pub fn relevant_context(similar: &Vec<ChatCandidate>) -> (r: String)
    ensures
        r@ == context_text(similar@),
{
    let mut out = String::new();
    let mut count: usize = 0;
    let mut i: usize = 0;
    while i < similar.len()
        invariant
            i <= similar@.len(),
            count == relevant_blocks(similar@.take(i as int)).len(),
            count <= i,
            out@ == joined(relevant_blocks(similar@.take(i as int))),
        decreases similar@.len() - i,
    {
        proof {
            assert(similar@.take(i + 1).drop_last() =~= similar@.take(i as int));
        }
        let c = &similar[i];
        if relevant(c.score_bits) {
            if count > 0 {
                out.append("\n\n");
            }
            append_block(&mut out, c);
            proof {
                let b = relevant_blocks(similar@.take(i + 1));
                assert(b.drop_last() =~= relevant_blocks(similar@.take(i as int)));
                if count == 0 {
                    assert(out@ =~= joined(b));
                }
            }
            count = count + 1;
        }
        i = i + 1;
    }
    proof {
        assert(similar@.take(similar@.len() as int) =~= similar@);
    }
    if count == 0 {
        String::from_str("No relevant snippets found in the knowledge base.")
    } else {
        out
    }
}

/// The prompt section for the snippet the user is viewing; empty when there
/// is none. It is included whatever the scores.
pub fn snippet_section(ctx: &Option<SnippetContext>) -> (r: String)
    ensures
        r@ == section_text(*ctx),
{
    let mut out = String::new();
    match ctx {
        Some(c) => {
            out.append("\n\nThe user is currently viewing this snippet:\n**Title:** ");
            out.append(c.title.as_str());
            out.append("\n**Problem:** ");
            out.append(c.problem.as_str());
            out.append("\n");
            match &c.solution {
                Some(s) => {
                    out.append("**Solution:** ");
                    out.append(s.as_str());
                    out.append("\n");
                },
                None => {},
            }
            match &c.code {
                Some(k) => {
                    out.append("**Code:**\n```\n");
                    out.append(k.as_str());
                    out.append("\n```\n");
                },
                None => {},
            }
            out.append("\n");
        },
        None => {},
    }
    proof {
        assert(out@ =~= section_text(*ctx));
    }
    out
}

/// The generation prompt of a chat request: instructions, the retrieved
/// material, the viewed snippet, and the user's message.
pub fn chat_prompt(message: &str, similar: &Vec<ChatCandidate>, ctx: &Option<SnippetContext>) -> (r: String)
    ensures
        r@ == prompt_text(message@, similar@, *ctx),
{
    let mut out = String::from_str("You are a recall assistant for a developer's code snippet knowledge base.
The user has previously recorded solutions to programming problems.
Your job is to help them find and recall relevant information from their notes.

Based on the following relevant snippets from their knowledge base, answer the user's question.
If no relevant snippets are found, let the user know.
Always reference which snippet(s) you're drawing from.

## Relevant snippets from knowledge base:
");
    let context = relevant_context(similar);
    out.append(context.as_str());
    out.append("\n");
    let section = snippet_section(ctx);
    out.append(section.as_str());
    out.append("\n## User question:\n");
    out.append(message);
    out.append("\n\n## Your answer:");
    proof {
        assert(out@ =~= prompt_text(message@, similar@, *ctx));
    }
    out
}

pub open spec fn solution_prompt_text(problem: Seq<char>) -> Seq<char> {
    "You are an AI assistant helping developers solve programming problems.
Given the following development problem, provide a clear and practical solution in markdown format.
Be concise and focus on actionable steps.

Problem:
"@ + problem + "\n\nSolution:"@
}

pub open spec fn tags_prompt_text(content: Seq<char>) -> Seq<char> {
    "Analyze the following development-related content and suggest 3-5 relevant tags.
Tags should include technology stacks, categories, and key concepts.
Respond ONLY with a JSON array of strings. No explanation.

Content:
"@ + content + "\n\nTags (JSON array only):"@
}

/// The prompt that asks the model for a solution to a problem.
pub fn solution_prompt(problem: &str) -> (r: String)
    ensures
        r@ == solution_prompt_text(problem@),
{
    let mut out = String::from_str("You are an AI assistant helping developers solve programming problems.
Given the following development problem, provide a clear and practical solution in markdown format.
Be concise and focus on actionable steps.

Problem:
");
    out.append(problem);
    out.append("\n\nSolution:");
    out
}

/// The prompt that asks the model for tags, answered as a JSON array.
pub fn tags_prompt(content: &str) -> (r: String)
    ensures
        r@ == tags_prompt_text(content@),
{
    let mut out = String::from_str("Analyze the following development-related content and suggest 3-5 relevant tags.
Tags should include technology stacks, categories, and key concepts.
Respond ONLY with a JSON array of strings. No explanation.

Content:
");
    out.append(content);
    out.append("\n\nTags (JSON array only):");
    out
}

} // verus!
