//! Notifications on the desktop.
use vstd::prelude::*;

verus! {

/// What went wrong with a notification.
#[derive(Debug, PartialEq, Eq)]
pub enum NotificationError {
    Show(String),
}

impl DeepView for NotificationError {
    type V = Seq<char>;

    open spec fn deep_view(&self) -> Seq<char> {
        match *self {
            NotificationError::Show(reason) => reason@,
        }
    }
}

/// What the user is told when a notification could not be shown.
pub open spec fn notification_error_words(reason: Seq<char>) -> Seq<char> {
    "could not show system notification: "@ + reason
}

impl NotificationError {
    /// What the user is told.
    pub fn message(&self) -> (message: String)
        ensures
            message@ == notification_error_words(self.deep_view()),
    {
        match self {
            NotificationError::Show(reason) => {
                let mut message = "could not show system notification: ".to_owned();
                message.append(reason.as_str());
                message
            },
        }
    }
}

/// The model of what came of a notification.
pub open spec fn notice_outcome(outcome: Result<(), NotificationError>) -> Result<(), Seq<char>> {
    match outcome {
        Ok(_) => Ok(()),
        Err(error) => Err(error.deep_view()),
    }
}

/// Something that notifies the user.
pub trait Notifier: Send + Sized {
    /// Whether notifying the user of an alarm may end in `outcome`; it may, unless a notifier
    /// says more.
    open spec fn may_notify(&self, label: Seq<char>, outcome: Result<(), Seq<char>>) -> bool {
        true
    }

    /// Notifies the user of an alarm.
    fn alarm(&self, label: &str) -> (outcome: Result<(), NotificationError>)
        ensures
            self.may_notify(label@, notice_outcome(outcome)),
    ;
}

} // verus!
