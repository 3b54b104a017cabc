//! Resolving the placeholders of a prompt template.

use crate::text::{lemma_replace_absent, occurs, replace, replace_all};
use vstd::prelude::*;

verus! {

/// The placeholder for a name: an opening brace, the name, and `closing`.
pub open spec fn placeholder(name: Seq<char>, closing: Seq<char>) -> Seq<char> {
    "{"@ + name + closing
}

/// The placeholder `{name}` for the caller's input `name`.
pub open spec fn input_placeholder(name: Seq<char>) -> Seq<char> {
    placeholder(name, "}"@)
}

/// The placeholder `{task_id_output}` for the output of the task `task_id`.
pub open spec fn output_placeholder(task_id: Seq<char>) -> Seq<char> {
    placeholder(task_id, "_output}"@)
}

/// `text` after the bindings have been applied one after the other, first to
/// last: for each binding of a name to a value, every occurrence of the
/// name's placeholder in the text as it then stands is replaced by the value.
pub open spec fn substituted(
    text: Seq<char>,
    bindings: Seq<(Seq<char>, Seq<char>)>,
    closing: Seq<char>,
) -> Seq<char>
    decreases bindings.len(),
{
    if bindings.len() == 0 {
        text
    } else {
        replace_all(
            substituted(text, bindings.drop_last(), closing),
            placeholder(bindings.last().0, closing),
            bindings.last().1,
        )
    }
}

/// The prompt that `template` resolves to: first the inputs are put in for
/// their placeholders, then the recorded outputs for theirs. A placeholder
/// that names neither an input nor a recorded task stays as it is.
pub open spec fn resolved(
    template: Seq<char>,
    inputs: Seq<(Seq<char>, Seq<char>)>,
    memory: Seq<(Seq<char>, Seq<char>)>,
) -> Seq<char> {
    substituted(substituted(template, inputs, "}"@), memory, "_output}"@)
}

/// Applying bindings of which no placeholder occurs in the text changes
/// nothing.
pub proof fn lemma_substituted_unchanged(
    text: Seq<char>,
    bindings: Seq<(Seq<char>, Seq<char>)>,
    closing: Seq<char>,
)
    requires
        forall|i: int|
            0 <= i < bindings.len() ==> !occurs(text, #[trigger] placeholder(bindings[i].0, closing)),
    ensures
        substituted(text, bindings, closing) == text,
    decreases bindings.len(),
{
    if bindings.len() > 0 {
        let front = bindings.drop_last();
        assert forall|i: int| 0 <= i < front.len() implies !occurs(
            text,
            #[trigger] placeholder(front[i].0, closing),
        ) by {
            assert(front[i] == bindings[i]);
        }
        lemma_substituted_unchanged(text, front, closing);
        assert(!occurs(text, placeholder(bindings[bindings.len() - 1].0, closing)));
        lemma_replace_absent(text, placeholder(bindings.last().0, closing), bindings.last().1);
    }
}

/// A template in which no placeholder of an input or of a recorded output
/// occurs resolves to itself.
pub proof fn lemma_resolve_without_placeholders(
    template: Seq<char>,
    inputs: Seq<(Seq<char>, Seq<char>)>,
    memory: Seq<(Seq<char>, Seq<char>)>,
)
    requires
        forall|i: int|
            0 <= i < inputs.len() ==> !occurs(template, #[trigger] input_placeholder(inputs[i].0)),
        forall|i: int|
            0 <= i < memory.len() ==> !occurs(template, #[trigger] output_placeholder(memory[i].0)),
    ensures
        resolved(template, inputs, memory) == template,
{
    assert forall|i: int| 0 <= i < inputs.len() implies !occurs(
        template,
        #[trigger] placeholder(inputs[i].0, "}"@),
    ) by {
        assert(!occurs(template, input_placeholder(inputs[i].0)));
    }
    assert forall|i: int| 0 <= i < memory.len() implies !occurs(
        template,
        #[trigger] placeholder(memory[i].0, "_output}"@),
    ) by {
        assert(!occurs(template, output_placeholder(memory[i].0)));
    }
    lemma_substituted_unchanged(template, inputs, "}"@);
    lemma_substituted_unchanged(template, memory, "_output}"@);
}

/// With no inputs and nothing recorded, every template resolves to itself.
pub proof fn lemma_resolve_nothing_known(template: Seq<char>)
    ensures
        resolved(
            template,
            Seq::<(Seq<char>, Seq<char>)>::empty(),
            Seq::<(Seq<char>, Seq<char>)>::empty(),
        ) == template,
{
}

/// Applies `bindings` to `text`, first to last.
fn substitute(text: String, bindings: &Vec<(String, String)>, closing: &str) -> (res: String)
    ensures
        res@ == substituted(text@, bindings.deep_view(), closing@),
{
    let ghost all = bindings.deep_view();
    let mut current = text;
    let mut i: usize = 0;
    proof {
        assert(all.take(0) =~= Seq::empty());
    }
    while i < bindings.len()
        invariant
            i <= bindings.len(),
            all == bindings.deep_view(),
            current@ == substituted(text@, all.take(i as int), closing@),
        decreases bindings.len() - i,
    {
        let mut wanted = "{".to_owned();
        wanted.append(bindings[i].0.as_str());
        wanted.append(closing);
        current = replace(current.as_str(), wanted.as_str(), bindings[i].1.as_str());
        proof {
            let upto = all.take(i + 1);
            assert(upto.drop_last() =~= all.take(i as int));
            assert(upto.last() == (bindings@[i as int].0@, bindings@[i as int].1@));
        }
        i += 1;
    }
    proof {
        assert(all.take(bindings.len() as int) =~= all);
    }
    current
}

/// Resolves the placeholders of `template`: `{name}` by the value that
/// `inputs` gives for `name`, `{id_output}` by the output that `memory` holds
/// for the task `id`. Inputs are applied before outputs, each list first to
/// last. Placeholders that name nothing known stay in the result.
pub fn resolve(template: &str, inputs: &Vec<(String, String)>, memory: &Vec<(String, String)>) -> (res:
    String)
    ensures
        res@ == resolved(template@, inputs.deep_view(), memory.deep_view()),
{
    let with_inputs = substitute(template.to_owned(), inputs, "}");
    substitute(with_inputs, memory, "_output}")
}

} // verus!
