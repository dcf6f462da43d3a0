//! How the run of an element parser over a sequence of events is described.

use crate::error::{ErrorKind, ParseError, Scope, Warning, WarningKind, WarningModel};
use crate::token::XmlEvent;
use vstd::prelude::*;

verus! {

/// What a parser made of the events it was given.
pub struct Outcome<T> {
    /// The value, or the first fatal error.
    pub result: Result<T, ParseError>,
    /// The events that are left for whoever reads next.
    pub rest: Seq<XmlEvent>,
    /// The offset after the event read last.
    pub position: usize,
    /// The warnings so far, those of earlier parsers first.
    pub warnings: Seq<WarningModel>,
}

/// What one event does to a parser in state `S` that builds a `T`.
pub enum Step<S, T> {
    /// The parser goes on in a new state, perhaps with a warning.
    Go(S, Option<WarningModel>),
    /// The parser ends, with its value or with an error.
    Done(Result<T, ParseError>),
}

/// The log with one more warning, if there is one.
pub open spec fn logged(log: Seq<WarningModel>, warning: Option<WarningModel>) -> Seq<
    WarningModel,
> {
    match warning {
        Some(w) => log.push(w),
        None => log,
    }
}

/// The warning about a child element that the schema does not know.
pub open spec fn unknown_tag(scope: Scope, offset: usize, name: Seq<u8>) -> WarningModel {
    WarningModel { kind: WarningKind::UnknownTag, scope, offset, subject: name }
}

/// The warning about text outside every known field.
pub open spec fn unexpected_text(scope: Scope, offset: usize, raw: Seq<u8>) -> WarningModel {
    WarningModel { kind: WarningKind::UnexpectedText, scope, offset, subject: raw }
}

/// A failed step.
pub open spec fn fail<S, T>(kind: ErrorKind, offset: usize) -> Step<S, T> {
    Step::Done(Err(ParseError { kind, offset }))
}

/// Pushing onto a vector pushes the item's model onto the vector's model.
pub proof fn lemma_deep_view_push<T: DeepView>(before: Vec<T>, after: Vec<T>, item: T)
    requires
        after@ == before@.push(item),
    ensures
        after.deep_view() == before.deep_view().push(item.deep_view()),
{
    assert(after.deep_view() =~= before.deep_view().push(item.deep_view()));
}

/// The model of an empty vector is empty.
pub proof fn lemma_deep_view_empty<T: DeepView>(v: Vec<T>)
    requires
        v@.len() == 0,
    ensures
        v.deep_view() == Seq::<T::V>::empty(),
{
    assert(v.deep_view() =~= Seq::<T::V>::empty());
}

/// Records a warning about an unknown child element.
pub fn warn_unknown_tag(warnings: &mut Vec<Warning>, name: Vec<u8>, offset: usize, scope: Scope)
    ensures
        (*final(warnings)).deep_view() == (*old(warnings)).deep_view().push(
            unknown_tag(scope, offset, name@),
        ),
{
    let ghost before = *warnings;
    let warning = Warning { kind: WarningKind::UnknownTag, scope, offset, subject: name };
    warnings.push(warning);
    proof {
        lemma_deep_view_push(before, *warnings, warning);
    }
}

/// Records a warning about unexpected text.
pub fn warn_unexpected_text(warnings: &mut Vec<Warning>, raw: Vec<u8>, offset: usize, scope: Scope)
    ensures
        (*final(warnings)).deep_view() == (*old(warnings)).deep_view().push(
            unexpected_text(scope, offset, raw@),
        ),
{
    let ghost before = *warnings;
    let warning = Warning { kind: WarningKind::UnexpectedText, scope, offset, subject: raw };
    warnings.push(warning);
    proof {
        lemma_deep_view_push(before, *warnings, warning);
    }
}

} // verus!
