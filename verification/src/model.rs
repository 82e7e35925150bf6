//! The `/model` command, and the end of a chat.

use vstd::prelude::*;

use crate::complete::ChatState;
use crate::report::{inked, Ink, Report, SpanText};
use crate::text::{cat2, cat3, option_text, same_text, texts};

verus! {

/// A model that can be chosen.
#[derive(Debug)]
pub struct ModelOption {
    /// The name under which it is offered.
    pub name: String,
    /// Its identifier.
    pub model_id: String,
}

/// The identifier of the model where none was chosen.
pub const DEFAULT_MODEL_ID: &'static str = "CLAUDE_3_7_SONNET_20250219_V1_0";

/// The identifiers of the models that can be chosen, in the order in which they are offered.
pub open spec fn model_ids() -> Seq<Seq<char>> {
    seq![
        "CLAUDE_SONNET_4_20250514_V1_0"@,
        "CLAUDE_3_7_SONNET_20250219_V1_0"@,
        "CLAUDE_3_5_SONNET_20241022_V2_0"@,
    ]
}

/// The names and identifiers of a list of models.
pub open spec fn option_list(v: Seq<ModelOption>) -> Seq<(Seq<char>, Seq<char>)> {
    Seq::new(v.len(), |i: int| (v[i].name@, v[i].model_id@))
}

/// The models that can be chosen, under the given names.
pub fn model_options(names: &Vec<String>) -> (res: Vec<ModelOption>)
    requires
        names@.len() == model_ids().len(),
    ensures
        option_list(res@) == Seq::new(
            model_ids().len(),
            |i: int| (names@[i]@, model_ids()[i]),
        ),
{
    let mut res: Vec<ModelOption> = Vec::new();
    res.push(
        ModelOption {
            name: names[0].clone(),
            model_id: String::from_str("CLAUDE_SONNET_4_20250514_V1_0"),
        },
    );
    res.push(
        ModelOption {
            name: names[1].clone(),
            model_id: String::from_str("CLAUDE_3_7_SONNET_20250219_V1_0"),
        },
    );
    res.push(
        ModelOption {
            name: names[2].clone(),
            model_id: String::from_str("CLAUDE_3_5_SONNET_20241022_V2_0"),
        },
    );
    assert(option_list(res@) =~= Seq::new(model_ids().len(), |i: int| (names@[i]@, model_ids()[i])));
    res
}

/// What `/model` is asked for: nothing.
#[derive(Debug, PartialEq, Eq)]
pub struct ModelArgs {}

/// Whether a model is the active one.
pub open spec fn is_active(model: (Seq<char>, Seq<char>), active: Option<Seq<char>>) -> bool {
    (model.1.len() == 0 && active is None) || active == Some(model.1)
}

/// How a list of models is offered.
pub open spec fn model_labels(
    list: Seq<(Seq<char>, Seq<char>)>,
    active: Option<Seq<char>>,
) -> Seq<Seq<char>> {
    Seq::new(
        list.len(),
        |i: int|
            if is_active(list[i], active) {
                list[i].0 + " (active)"@
            } else {
                list[i].0
            },
    )
}

/// What is said where a model was chosen.
pub open spec fn model_report(name: Seq<char>) -> Seq<SpanText> {
    seq![inked(Ink::Plain, "\n"@), inked(Ink::Plain, " Using "@ + name + "\n\n"@)]
}

impl ModelArgs {
    /// How the models are offered, where `active` is the identifier of the active one.
    pub fn labels(&self, options: &Vec<ModelOption>, active: &Option<String>) -> (res: Vec<String>)
        ensures
            texts(res@) == model_labels(option_list(options@), option_text(*active)),
    {
        let ghost list = option_list(options@);
        let ghost act = option_text(*active);
        let mut out: Vec<String> = Vec::new();
        let mut i: usize = 0;
        while i < options.len()
            invariant
                i <= options@.len(),
                list == option_list(options@),
                act == option_text(*active),
                out@.len() == i,
                forall|j: int| 0 <= j < i ==> (#[trigger] out@[j])@ == model_labels(list, act)[j],
            decreases options@.len() - i,
        {
            let one = &options[i];
            assert(list[i as int] == (one.name@, one.model_id@));
            proof {
                crate::complete::lemma_bytes_nonempty(one.model_id@);
            }
            let current = match active {
                Some(a) => same_text(a.as_str(), one.model_id.as_str()),
                None => crate::number::bytes_in(one.model_id.as_str()) == 0,
            };
            if current {
                out.push(cat2(one.name.as_str(), " (active)"));
            } else {
                out.push(one.name.clone());
            }
            assert(out@[i as int]@ == model_labels(list, act)[i as int]);
            i += 1;
        }
        assert(texts(out@) =~= model_labels(list, act));
        out
    }

    /// The identifier of the model that was chosen, and what is said; where none was chosen
    /// nothing changes.
    pub fn execute(&self, options: &Vec<ModelOption>, selection: Option<usize>) -> (res: Option<
        (String, Report),
    >)
        requires
            selection matches Some(i) ==> i < options@.len(),
        ensures
            match selection {
                Some(i) => res matches Some(x) && x.0@ == options@[i as int].model_id@ && x.1@
                    == model_report(options@[i as int].name@),
                None => res is None,
            },
    {
        match selection {
            None => None,
            Some(i) => {
                let one = &options[i];
                let mut out = Report::new();
                out.say(Ink::Plain, "\n");
                let text = cat3(" Using ", one.name.as_str(), "\n\n");
                out.say(Ink::Plain, text.as_str());
                assert(out@ =~= model_report(one.name@));
                Some((one.model_id.clone(), out))
            },
        }
    }
}

/// The model that is used where none was chosen is one of those that can be.
pub proof fn law_default_model_is_offered()
    ensures
        model_ids().contains(DEFAULT_MODEL_ID@),
{
    assert(model_ids()[1] == DEFAULT_MODEL_ID@);
}

/// Each model that can be chosen is offered as the active one where it is, and no other is:
/// a model with another identifier bears no mark.
pub proof fn law_one_model_is_active(
    list: Seq<(Seq<char>, Seq<char>)>,
    chosen: int,
    other: int,
)
    requires
        0 <= chosen < list.len(),
        0 <= other < list.len(),
        list[other].1 != list[chosen].1,
    ensures
        model_labels(list, Some(list[chosen].1))[chosen] == list[chosen].0 + " (active)"@,
        model_labels(list, Some(list[chosen].1))[other] == list[other].0,
{
}

/// What `/quit` is asked for.
#[derive(Debug, PartialEq)]
pub struct QuitArgs {
    /// Where the conversation is saved first.
    pub save: Option<String>,
}

impl QuitArgs {
    /// Where the conversation is to be saved, and what happens then.
    pub fn execute(self) -> (res: (Option<String>, ChatState))
        ensures
            res.0 == self.save,
            res.1 is Exit,
    {
        (self.save, ChatState::Exit)
    }
}

} // verus!
