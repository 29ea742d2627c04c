use vstd::prelude::*;
use vstd::string::StringExecFns;

verus! {

/// The interactive shell's prompt: a fixed left prompt and an empty right
/// side, with a rendering for the history search.
#[derive(Clone, Copy)]
pub struct TodoPrompt;

impl TodoPrompt {
    pub fn render_prompt_left(&self) -> (r: String)
        ensures
            r@ == "todo> "@,
    {
        "todo> ".to_owned()
    }

    pub fn render_prompt_right(&self) -> (r: String)
        ensures
            r@ == ""@,
    {
        "".to_owned()
    }

    pub fn render_prompt_indicator(&self) -> (r: String)
        ensures
            r@ == ""@,
    {
        "".to_owned()
    }

    pub fn render_prompt_multiline_indicator(&self) -> (r: String)
        ensures
            r@ == ""@,
    {
        "".to_owned()
    }

    /// The reverse-search banner: flags a failing search and shows the term.
    pub fn render_prompt_history_search_indicator(&self, failing: bool, term: &str) -> (r: String)
        ensures
            r@ == "("@ + (if failing {
                "failing "@
            } else {
                ""@
            }) + "reverse-search: "@ + term@ + ") "@,
    {
        let mut out = "(".to_owned();
        if failing {
            out.append("failing ");
        }
        out.append("reverse-search: ");
        out.append(term);
        out.append(") ");
        proof {
            reveal_strlit("");
            assert(out@ =~= "("@ + (if failing {
                "failing "@
            } else {
                ""@
            }) + "reverse-search: "@ + term@ + ") "@);
        }
        out
    }
}

} // verus!
