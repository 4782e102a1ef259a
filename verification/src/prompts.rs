//! What is asked and reported when git refuses to remove a worktree.

use vstd::prelude::*;
use vstd::string::to_string_from_display_ensures;

use crate::seqs::{first_where, lemma_first_where, opt_view, views};
use crate::text;
use crate::text::{first_occurrence, lowercase, texts};

verus! {

broadcast use vstd::string::group_string_axioms;

/// The git command that removes the worktree at a path.
pub open spec fn remove_command(path: Seq<char>, force: bool) -> Seq<char> {
    if force {
        "worktree remove --force "@ + path
    } else {
        "worktree remove "@ + path
    }
}

/// The git command that removes the worktree at a path.
pub fn remove_worktree_command(path: &str, force: bool) -> (r: String)
    ensures
        r@ == remove_command(path@, force),
{
    let mut command = if force {
        "worktree remove --force ".to_owned()
    } else {
        "worktree remove ".to_owned()
    };
    command.append(path);
    command
}

/// The question whether to force the deletion of a worktree that holds work.
pub open spec fn dirty_worktree_question(display_name: Seq<char>) -> Seq<char> {
    "Worktree \""@ + display_name
        + "\" contains modified or untracked files. Force delete it?"@
}

/// The question whether to force the deletion of a worktree that holds work.
pub fn dirty_worktree_force_delete_prompt(display_name: &str) -> (r: String)
    ensures
        r@ == dirty_worktree_question(display_name@),
{
    let mut message = "Worktree \"".to_owned();
    message.append(display_name);
    message.append("\" contains modified or untracked files. Force delete it?");
    message
}

/// A question that an error of git can lead to.
#[derive(Debug, Clone, Copy)]
pub enum ForceDeleteQuestion {
    DirtyWorktree,
}

/// The text of a question.
pub open spec fn question_text(
    question: ForceDeleteQuestion,
    display_name: Seq<char>,
) -> Seq<char> {
    match question {
        ForceDeleteQuestion::DirtyWorktree => dirty_worktree_question(display_name),
    }
}

/// An error of git, by what its message holds in lower case, and the question
/// that it leads to.
#[derive(Debug)]
pub struct WorktreeRemoveForceDeletePrompt {
    pub required_error_substrings: Vec<String>,
    pub message: ForceDeleteQuestion,
}

/// The value of an error of git and its question.
#[verifier::ext_equal]
pub struct PromptView {
    pub required_error_substrings: Seq<Seq<char>>,
    pub message: ForceDeleteQuestion,
}

impl View for WorktreeRemoveForceDeletePrompt {
    type V = PromptView;

    open spec fn view(&self) -> PromptView {
        PromptView {
            required_error_substrings: texts(self.required_error_substrings@),
            message: self.message,
        }
    }
}

impl PromptView {
    /// Whether a message in lower case is of this error.
    pub open spec fn covers(self, message: Seq<char>) -> bool {
        forall|i: int|
            0 <= i < self.required_error_substrings.len() ==> first_occurrence(
                message,
                #[trigger] self.required_error_substrings[i],
            ) is Some
    }
}

impl WorktreeRemoveForceDeletePrompt {
    /// Whether a message in lower case is of this error.
    pub fn matches(&self, normalized_error_message: &str) -> (r: bool)
        ensures
            r == self@.covers(normalized_error_message@),
    {
        let mut i: usize = 0;
        while i < self.required_error_substrings.len()
            invariant
                i <= self.required_error_substrings@.len(),
                forall|j: int|
                    0 <= j < i ==> first_occurrence(
                        normalized_error_message@,
                        #[trigger] self@.required_error_substrings[j],
                    ) is Some,
            decreases self.required_error_substrings@.len() - i,
        {
            if !text::contains(
                normalized_error_message,
                self.required_error_substrings[i].as_str(),
            ) {
                assert(first_occurrence(
                    normalized_error_message@,
                    self@.required_error_substrings[i as int],
                ) is None);
                return false;
            }
            i += 1;
        }
        true
    }
}

/// The errors of git that lead to a question.
pub open spec fn force_delete_prompts() -> Seq<PromptView> {
    seq![
        PromptView {
            required_error_substrings: seq![
                "contains modified or untracked files"@,
                "use --force to delete it"@,
            ],
            message: ForceDeleteQuestion::DirtyWorktree,
        },
    ]
}

/// The errors of git that lead to a question.
pub fn worktree_remove_force_delete_prompts() -> (r: Vec<WorktreeRemoveForceDeletePrompt>)
    ensures
        views(r@) == force_delete_prompts(),
{
    let mut required: Vec<String> = Vec::new();
    required.push("contains modified or untracked files".to_owned());
    required.push("use --force to delete it".to_owned());
    let prompt = WorktreeRemoveForceDeletePrompt {
        required_error_substrings: required,
        message: ForceDeleteQuestion::DirtyWorktree,
    };
    assert(texts(required@) =~= seq![
        "contains modified or untracked files"@,
        "use --force to delete it"@,
    ]);
    let mut r: Vec<WorktreeRemoveForceDeletePrompt> = Vec::new();
    r.push(prompt);
    assert(views(r@) =~= force_delete_prompts());
    r
}

/// The question that a message in lower case leads to: that of the first error
/// that it is of.
pub open spec fn question_for(message: Seq<char>, display_name: Seq<char>) -> Option<Seq<char>> {
    match first_where(force_delete_prompts(), |prompt: PromptView| prompt.covers(message)) {
        Some(i) => Some(question_text(force_delete_prompts()[i].message, display_name)),
        None => None,
    }
}

/// The question that a message in lower case leads to.
pub fn force_delete_prompt_for_normalized_message(
    normalized_error_message: &str,
    display_name: &str,
) -> (r: Option<String>)
    ensures
        opt_view(r) == question_for(normalized_error_message@, display_name@),
{
    let prompts = worktree_remove_force_delete_prompts();
    let ghost all = force_delete_prompts();
    proof {
        lemma_first_where(all, |prompt: PromptView| prompt.covers(normalized_error_message@));
    }
    let mut i: usize = 0;
    #[verifier::loop_isolation(false)]
    while i < prompts.len()
        invariant
            i <= prompts@.len(),
            forall|j: int| 0 <= j < i ==> !(#[trigger] all[j]).covers(normalized_error_message@),
        decreases prompts@.len() - i,
    {
        assert(all[i as int] == prompts@[i as int]@);
        if prompts[i].matches(normalized_error_message) {
            return match prompts[i].message {
                ForceDeleteQuestion::DirtyWorktree => Some(
                    dirty_worktree_force_delete_prompt(display_name),
                ),
            };
        }
        i += 1;
    }
    None
}

/// The question that an error message leads to.
pub open spec fn removal_question(message: Seq<char>, display_name: Seq<char>) -> Option<
    Seq<char>,
> {
    question_for(lowercase(message), display_name)
}

/// The question that an error message leads to, whatever its case.
pub fn force_delete_prompt_for_message(message: &str, display_name: &str) -> (r: Option<String>)
    ensures
        opt_view(r) == removal_question(message@, display_name@),
{
    let normalized_error_message = text::to_lowercase(message);
    force_delete_prompt_for_normalized_message(normalized_error_message.as_str(), display_name)
}

/// `anyhow::Error`, the error of a request to git.
#[verifier::external_type_specification]
#[verifier::external_body]
pub struct ExError(anyhow::Error);

/// Whether a text is what an error displays. What that is, is up to the error;
/// an error whose own `Display` fails has no such text, and `to_string` panics
/// on it.
pub open spec fn is_message_of(error: &anyhow::Error, message: String) -> bool {
    to_string_from_display_ensures::<anyhow::Error>(error, message)
}

/// The question that an error leads to, by its message.
pub fn force_delete_prompt_for_worktree_remove_error(
    error: &anyhow::Error,
    display_name: &str,
) -> (r: Option<String>)
    ensures
        exists|message: String| #[trigger]
            is_message_of(error, message) && opt_view(r) == removal_question(
                message@,
                display_name@,
            ),
{
    let message = error.to_string();
    assert(is_message_of(error, message));
    force_delete_prompt_for_message(message.as_str(), display_name)
}

} // verus!
