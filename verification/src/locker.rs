//! The screen locker: which service is asked about which credentials, and what
//! unlocks the screen. Whatever goes wrong on the way leaves it locked.

use crate::paths::str_opt;
use crate::text::owned;
use vstd::prelude::*;

verus! {

/// The service whose rules decide, in `/etc/pam.d`.
pub const SERVICE: &'static str = "helium-locker";

/// How long the locker waits between the unlocking and its end, in milliseconds, so
/// that the compositor hears of the unlocking.
pub const EXIT_DELAY_MS: u64 = 100;

/// Whom to ask about a password.
pub enum Inquiry {
    /// Nobody: the screen stays locked.
    Refuse,
    /// The service, about a user and a password.
    Ask { service: &'static str, user: String, password: String },
}

/// Whom to ask, by its characters.
pub enum InquiryView {
    Refuse,
    Ask { service: Seq<char>, user: Seq<char>, password: Seq<char> },
}

impl View for Inquiry {
    type V = InquiryView;

    open spec fn view(&self) -> InquiryView {
        match self {
            Inquiry::Refuse => InquiryView::Refuse,
            Inquiry::Ask { service, user, password } => InquiryView::Ask {
                service: service@,
                user: user@,
                password: password@,
            },
        }
    }
}

/// What came of an inquiry.
#[derive(Clone, Copy, PartialEq, Eq, Structural)]
pub enum Outcome {
    /// The service could not be asked.
    NoContext,
    /// The service did not accept the credentials.
    Failed,
    /// The service accepted the credentials.
    Authenticated,
}

/// Whom to ask about what was entered: the service, where both the name of the user
/// and a password are there.
pub open spec fn inquiry_for(user: Option<Seq<char>>, entered: Option<Seq<char>>) -> InquiryView {
    match (user, entered) {
        (Some(user), Some(password)) => InquiryView::Ask { service: SERVICE@, user, password },
        _ => InquiryView::Refuse,
    }
}

/// Whether an inquiry unlocks the screen, given what came of it.
pub open spec fn opens(inquiry: InquiryView, outcome: Outcome) -> bool {
    inquiry is Ask && outcome == Outcome::Authenticated
}

/// Whom to ask about what was entered, given the environment variable `USER` and the
/// text of the password field, where there is one.
pub fn inquire(user: Option<&str>, entered: Option<&str>) -> (r: Inquiry)
    ensures
        r@ == inquiry_for(str_opt(user), str_opt(entered)),
{
    match user {
        Some(u) => match entered {
            Some(p) => Inquiry::Ask { service: SERVICE, user: owned(u), password: owned(p) },
            None => Inquiry::Refuse,
        },
        None => Inquiry::Refuse,
    }
}

/// Whether the screen is unlocked, given what came of an inquiry.
pub fn verify_password(inquiry: &Inquiry, outcome: Outcome) -> (r: bool)
    ensures
        r == opens(inquiry@, outcome),
{
    match inquiry {
        Inquiry::Refuse => false,
        Inquiry::Ask { .. } => match outcome {
            Outcome::Authenticated => true,
            _ => false,
        },
    }
}

/// The screen unlocks exactly where the user is known, a password was entered, and
/// the locker's service, asked about just these two, accepts them.
pub proof fn only_the_service_unlocks(
    user: Option<Seq<char>>,
    entered: Option<Seq<char>>,
    service: spec_fn(InquiryView) -> Outcome,
)
    ensures
        opens(inquiry_for(user, entered), service(inquiry_for(user, entered))) <==> {
            &&& user is Some
            &&& entered is Some
            &&& service(
                InquiryView::Ask { service: SERVICE@, user: user->0, password: entered->0 },
            ) == Outcome::Authenticated
        },
{
}

} // verus!
