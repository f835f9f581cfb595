//! The ways in which generating a module can fail, and how the outcomes of
//! the parts of a text make the outcome of the whole: all or nothing.

use vstd::prelude::*;
use vstd::string::*;

use crate::text::concat_all;

verus! {

/// Why no module was generated. Every failure ends the run: nothing is
/// emitted beside it.
#[derive(Debug, PartialEq, Eq)]
pub enum GenerationError {
    /// The analyzer could not be started, or it failed.
    SchemaUnavailable,
    /// The analyzer ran, but what it printed is no schema.
    SchemaMalformed,
    /// `component` names the props type `props_name`, and the schema holds no
    /// type of that name.
    UnresolvedPropsReference { component: String, props_name: String },
    /// The intrinsic type of `property` is missing (`None`) or is none of the
    /// known ones (`Some` of the offending name).
    UnsupportedIntrinsicType { property: String, intrinsic_type: Option<String> },
}

/// A `GenerationError` with its texts as sequences of characters.
pub enum GenerationErrorView {
    SchemaUnavailable,
    SchemaMalformed,
    UnresolvedPropsReference { component: Seq<char>, props_name: Seq<char> },
    UnsupportedIntrinsicType { property: Seq<char>, intrinsic_type: Option<Seq<char>> },
}

impl View for GenerationError {
    type V = GenerationErrorView;

    open spec fn view(&self) -> GenerationErrorView {
        match self {
            GenerationError::SchemaUnavailable => GenerationErrorView::SchemaUnavailable,
            GenerationError::SchemaMalformed => GenerationErrorView::SchemaMalformed,
            GenerationError::UnresolvedPropsReference { component, props_name } => {
                GenerationErrorView::UnresolvedPropsReference {
                    component: component@,
                    props_name: props_name@,
                }
            },
            GenerationError::UnsupportedIntrinsicType { property, intrinsic_type } => {
                GenerationErrorView::UnsupportedIntrinsicType {
                    property: property@,
                    intrinsic_type: match intrinsic_type {
                        Some(name) => Some(name@),
                        None => None,
                    },
                }
            },
        }
    }
}

impl GenerationErrorView {
    /// The diagnostic that reports this failure.
    pub open spec fn message(self) -> Seq<char> {
        match self {
            GenerationErrorView::SchemaUnavailable => {
                "reacty_yew: the analyzer could not be run, or it failed"@
            },
            GenerationErrorView::SchemaMalformed => {
                "reacty_yew: the output of the analyzer is not a schema"@
            },
            GenerationErrorView::UnresolvedPropsReference { component, props_name } => {
                "reacty_yew: component \""@ + component + "\" has the props type \""@ + props_name
                    + "\", which the schema does not hold"@
            },
            GenerationErrorView::UnsupportedIntrinsicType { property, intrinsic_type } => {
                match intrinsic_type {
                    Some(name) => {
                        "reacty_yew: Unable to convert intrinsic type \""@ + name
                            + "\" to Rust type (property \""@ + property + "\")"@
                    },
                    None => {
                        "reacty_yew: Unsupported TS intrinsic type (property \""@ + property
                            + "\")"@
                    },
                }
            },
        }
    }
}

impl GenerationError {
    /// The diagnostic that reports this failure.
    pub fn message(&self) -> (message: String)
        ensures
            message@ == self@.message(),
    {
        match self {
            GenerationError::SchemaUnavailable => {
                "reacty_yew: the analyzer could not be run, or it failed".to_owned()
            },
            GenerationError::SchemaMalformed => {
                "reacty_yew: the output of the analyzer is not a schema".to_owned()
            },
            GenerationError::UnresolvedPropsReference { component, props_name } => {
                let mut message = "reacty_yew: component \"".to_owned();
                message.append(component.as_str());
                message.append("\" has the props type \"");
                message.append(props_name.as_str());
                message.append("\", which the schema does not hold");
                message
            },
            GenerationError::UnsupportedIntrinsicType { property, intrinsic_type } => {
                match intrinsic_type {
                    Some(name) => {
                        let mut message = "reacty_yew: Unable to convert intrinsic type \""
                            .to_owned();
                        message.append(name.as_str());
                        message.append("\" to Rust type (property \"");
                        message.append(property.as_str());
                        message.append("\")");
                        message
                    },
                    None => {
                        let mut message = "reacty_yew: Unsupported TS intrinsic type (property \""
                            .to_owned();
                        message.append(property.as_str());
                        message.append("\")");
                        message
                    },
                }
            },
        }
    }
}

/// The outcome of emitting text: the text, or the failure.
pub type TextOutcome = Result<Seq<char>, GenerationErrorView>;

/// The outcome of emitting text, with its texts as sequences of characters.
pub open spec fn text_outcome(outcome: Result<String, GenerationError>) -> TextOutcome {
    match outcome {
        Ok(text) => Ok(text@),
        Err(error) => Err(error@),
    }
}

/// The first of `outcomes` that is a failure, by its index.
pub open spec fn first_failure(outcomes: Seq<TextOutcome>) -> Option<int>
    decreases outcomes.len(),
{
    if outcomes.len() == 0 {
        None
    } else {
        match first_failure(outcomes.drop_last()) {
            Some(i) => Some(i),
            None => if outcomes.last() is Err {
                Some(outcomes.len() - 1)
            } else {
                None
            },
        }
    }
}

/// The texts of `outcomes`, in order.
pub open spec fn texts_of(outcomes: Seq<TextOutcome>) -> Seq<Seq<char>> {
    outcomes.map_values(|outcome: TextOutcome| outcome->Ok_0)
}

/// All of `outcomes` or nothing: their texts one after another, in order,
/// where none of them is a failure, and the first failure else.
pub open spec fn all_or_nothing(outcomes: Seq<TextOutcome>) -> TextOutcome {
    match first_failure(outcomes) {
        Some(i) => Err(outcomes[i]->Err_0),
        None => Ok(concat_all(texts_of(outcomes))),
    }
}

/// `first_failure` finds the least index that holds a failure, and nothing
/// where no outcome is a failure.
pub proof fn lemma_first_failure(outcomes: Seq<TextOutcome>)
    ensures
        match first_failure(outcomes) {
            Some(i) => {
                &&& 0 <= i < outcomes.len()
                &&& outcomes[i] is Err
                &&& forall|j: int| 0 <= j < i ==> (#[trigger] outcomes[j]) is Ok
            },
            None => forall|j: int| 0 <= j < outcomes.len() ==> (#[trigger] outcomes[j]) is Ok,
        },
    decreases outcomes.len(),
{
    if outcomes.len() > 0 {
        let front = outcomes.drop_last();
        lemma_first_failure(front);
        match first_failure(front) {
            Some(i) => {
                assert(outcomes[i] == front[i]);
                assert forall|j: int| 0 <= j < i implies (#[trigger] outcomes[j]) is Ok by {
                    assert(outcomes[j] == front[j]);
                }
            },
            None => {
                assert forall|j: int| 0 <= j < outcomes.len() - 1 implies (
                #[trigger] outcomes[j]) is Ok by {
                    assert(outcomes[j] == front[j]);
                }
            },
        }
    }
}

/// One more outcome: where the first `i` outcomes gave a text, outcome `i`
/// adds its text to it or fails the whole; where they failed, the failure
/// stays.
pub proof fn lemma_all_or_nothing_next(outcomes: Seq<TextOutcome>, i: int)
    requires
        0 <= i < outcomes.len(),
    ensures
        all_or_nothing(outcomes.take(i + 1)) == match all_or_nothing(outcomes.take(i)) {
            Err(error) => Err::<Seq<char>, GenerationErrorView>(error),
            Ok(before) => match outcomes[i] {
                Err(error) => Err(error),
                Ok(text) => Ok(before + text),
            },
        },
{
    let more = outcomes.take(i + 1);
    assert(more.drop_last() =~= outcomes.take(i));
    assert(more.last() == outcomes[i]);
    lemma_first_failure(outcomes.take(i));
    if first_failure(outcomes.take(i)) is Some {
        assert(more[first_failure(outcomes.take(i))->0] == outcomes.take(i)[first_failure(
            outcomes.take(i),
        )->0]);
    } else if outcomes[i] is Ok {
        assert(texts_of(more) =~= texts_of(outcomes.take(i)).push(outcomes[i]->Ok_0));
        assert(texts_of(more).drop_last() =~= texts_of(outcomes.take(i)));
    }
}

/// A failure among the first `k` outcomes is the failure of the whole.
pub proof fn lemma_failure_stays(outcomes: Seq<TextOutcome>, k: int)
    requires
        0 <= k <= outcomes.len(),
        all_or_nothing(outcomes.take(k)) is Err,
    ensures
        all_or_nothing(outcomes) == all_or_nothing(outcomes.take(k)),
    decreases outcomes.len() - k,
{
    if k < outcomes.len() {
        lemma_all_or_nothing_next(outcomes, k);
        lemma_failure_stays(outcomes, k + 1);
    } else {
        assert(outcomes.take(k) =~= outcomes);
    }
}

/// Text comes of `outcomes` exactly where each of them is a text; and the
/// first failure decides: where the outcomes before `k` are texts and
/// outcome `k` is a failure, that failure is the outcome of the whole.
pub proof fn lemma_all_or_nothing(outcomes: Seq<TextOutcome>)
    ensures
        all_or_nothing(outcomes) is Ok <==> (forall|j: int|
            0 <= j < outcomes.len() ==> (#[trigger] outcomes[j]) is Ok),
        forall|k: int|
            0 <= k < outcomes.len() && (#[trigger] outcomes[k]) is Err && (forall|j: int|
                0 <= j < k ==> (#[trigger] outcomes[j]) is Ok) ==> all_or_nothing(outcomes)
                == Err::<Seq<char>, GenerationErrorView>(outcomes[k]->Err_0),
{
    lemma_first_failure(outcomes);
}

} // verus!
