use vstd::prelude::*;

verus! {

/// Why a run could not go on: what was being attempted and, where the operating system or an
/// encoder refused it, the text of that refusal.
pub struct Failure {
    pub context: String,
    pub cause: Option<String>,
}

/// A [`Failure`] as texts.
#[verifier::ext_equal]
pub struct FailureText {
    pub context: Seq<char>,
    pub cause: Option<Seq<char>>,
}

/// The text that an optional string holds.
pub open spec fn optional_text(s: Option<String>) -> Option<Seq<char>> {
    match s {
        Some(s) => Some(s@),
        None => None,
    }
}

impl View for Failure {
    type V = FailureText;

    open spec fn view(&self) -> FailureText {
        FailureText { context: self.context@, cause: optional_text(self.cause) }
    }
}

/// A failure that stands for itself.
pub open spec fn plain_failure(context: Seq<char>) -> FailureText {
    FailureText { context, cause: None }
}

/// A failure with a cause under it.
pub open spec fn caused_failure(context: Seq<char>, cause: Seq<char>) -> FailureText {
    FailureText { context, cause: Some(cause) }
}

/// The text is one that the error shows itself as.
pub open spec fn shown_as<E: core::fmt::Display>(error: E, text: Seq<char>) -> bool {
    exists|s: String|
        #[trigger] vstd::string::to_string_from_display_ensures(&error, s) && s@ == text
}

/// The failure has this error under it.
pub open spec fn caused_by<E: core::fmt::Display>(
    context: Seq<char>,
    error: E,
    f: FailureText,
) -> bool {
    &&& f.context == context
    &&& f.cause matches Some(text)
    &&& shown_as(error, text)
}

impl Failure {
    /// A failure that stands for itself.
    pub fn plain(context: String) -> (f: Failure)
        ensures
            f@ == plain_failure(context@),
            f.context@ == context@,
            f.cause is None,
    {
        Failure { context, cause: None }
    }

    /// A failure with a cause under it.
    pub fn caused(context: String, cause: String) -> (f: Failure)
        ensures
            f@ == caused_failure(context@, cause@),
            f.context@ == context@,
            f.cause matches Some(text) && text@ == cause@,
    {
        Failure { context, cause: Some(cause) }
    }
}

/// A failure keeps both of its texts as they were given, and one that stands for itself has no
/// cause.
pub proof fn law_failures_keep_their_texts(context: Seq<char>, cause: Seq<char>)
    ensures
        plain_failure(context).context == context,
        plain_failure(context).cause is None,
        caused_failure(context, cause).context == context,
        caused_failure(context, cause).cause == Some(cause),
{
}

/// The text that an error is shown as is one that the error itself gives, and the cause of a
/// failure that has an error under it is such a text.
pub proof fn law_causes_are_the_errors_own<E: core::fmt::Display>(
    context: Seq<char>,
    error: E,
    f: FailureText,
) -> (s: String)
    requires
        caused_by(context, error, f),
    ensures
        f.context == context,
        f.cause == Some(s@),
        vstd::string::to_string_from_display_ensures(&error, s),
{
    choose|s: String|
        #[trigger] vstd::string::to_string_from_display_ensures(&error, s) && s@
            == f.cause->Some_0
}

} // verus!
