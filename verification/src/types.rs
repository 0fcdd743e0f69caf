use vstd::prelude::*;

use crate::model::ExceptionView;

verus! {

/// Status of an issue. This core only needs the active / not-active
/// distinction: `Inactive` stands for every status an external workflow may
/// have set other than active.
#[derive(Clone, Copy, PartialEq, Eq, Structural, Debug)]
pub enum IssueStatus {
    Active,
    Inactive,
}

/// The view of an optional text field: absence is kept distinct from an
/// empty string.
pub open spec fn str_opt_view(o: Option<String>) -> Option<Seq<char>> {
    match o {
        Some(s) => Some(s@),
        None => None,
    }
}

/// One exception entry of a fingerprinted event: a type label and a message.
pub struct Exception {
    pub exception_type: String,
    pub exception_message: String,
}

impl View for Exception {
    type V = ExceptionView;

    open spec fn view(&self) -> ExceptionView {
        ExceptionView {
            exception_type: self.exception_type@,
            exception_message: self.exception_message@,
        }
    }
}

impl Clone for Exception {
    fn clone(&self) -> (r: Self)
        ensures
            r@ == self@,
    {
        Exception {
            exception_type: self.exception_type.clone(),
            exception_message: self.exception_message.clone(),
        }
    }
}

/// A fingerprinted event as the ingestion pipeline hands it in: the
/// fingerprint string and the ordered list of exception entries.
pub struct FingerprintedErrProps {
    pub fingerprint: String,
    pub exception_list: Vec<Exception>,
}

/// Mathematical view of a fingerprinted event.
pub ghost struct FingerprintedView {
    pub fingerprint: Seq<char>,
    pub exception_list: Seq<ExceptionView>,
}

impl View for FingerprintedErrProps {
    type V = FingerprintedView;

    open spec fn view(&self) -> FingerprintedView {
        FingerprintedView {
            fingerprint: self.fingerprint@,
            exception_list: self.exception_list@.map_values(|e: Exception| e@),
        }
    }
}

/// The same event annotated with the issue identity it resolved to.
pub struct OutputErrProps {
    pub issue_id: u128,
    pub fingerprint: String,
    pub exception_list: Vec<Exception>,
}

/// Mathematical view of an annotated event.
pub ghost struct OutputView {
    pub issue_id: u128,
    pub fingerprint: Seq<char>,
    pub exception_list: Seq<ExceptionView>,
}

impl View for OutputErrProps {
    type V = OutputView;

    open spec fn view(&self) -> OutputView {
        OutputView {
            issue_id: self.issue_id,
            fingerprint: self.fingerprint@,
            exception_list: self.exception_list@.map_values(|e: Exception| e@),
        }
    }
}

impl FingerprintedErrProps {
    /// Annotate the event with the resolved issue identity; everything else
    /// is carried over unchanged.
    pub fn to_output(self, issue_id: u128) -> (r: OutputErrProps)
        ensures
            r@.issue_id == issue_id,
            r@.fingerprint == self@.fingerprint,
            r@.exception_list == self@.exception_list,
    {
        OutputErrProps { issue_id, fingerprint: self.fingerprint, exception_list: self.exception_list }
    }
}

} // verus!
