//! Modal dialog state: a confirm/cancel question and a transient
//! notification.

use vstd::prelude::*;

use crate::strutil::push_char;

verus! {

/// A yes/no question with its button labels; `selected` is true on the
/// confirming button.
pub struct ConfirmModal {
    pub title: String,
    pub message: String,
    pub confirm_text: String,
    pub cancel_text: String,
    pub selected: bool,
}

impl ConfirmModal {
    /// A generic confirmation, cancel preselected.
    pub fn new(title: String, message: String) -> (r: ConfirmModal)
        ensures
            r.title@ == title@,
            r.message@ == message@,
            r.confirm_text@ == "Confirm"@,
            r.cancel_text@ == "Cancel"@,
            !r.selected,
    {
        ConfirmModal {
            title,
            message,
            confirm_text: String::from_str("Confirm"),
            cancel_text: String::from_str("Cancel"),
            selected: false,
        }
    }

    /// The deletion question for a named item, cancel preselected.
    pub fn delete(item_name: String) -> (r: ConfirmModal)
        ensures
            r.title@ == "Delete"@,
            r.message@ == "Are you sure you want to delete \""@ + item_name@ + "\"?"@,
            r.confirm_text@ == "Delete"@,
            r.cancel_text@ == "Cancel"@,
            !r.selected,
    {
        let mut message = String::from_str("Are you sure you want to delete \"");
        message.append(item_name.as_str());
        message.append("\"?");
        ConfirmModal {
            title: String::from_str("Delete"),
            message,
            confirm_text: String::from_str("Delete"),
            cancel_text: String::from_str("Cancel"),
            selected: false,
        }
    }

    /// Flip between the two buttons.
    pub fn toggle(&mut self)
        ensures
            final(self).selected == !old(self).selected,
            final(self).title@ == old(self).title@,
            final(self).message@ == old(self).message@,
            final(self).confirm_text@ == old(self).confirm_text@,
            final(self).cancel_text@ == old(self).cancel_text@,
    {
        self.selected = !self.selected;
    }
}

/// A transient message, marked as an error or as information.
pub struct NotificationModal {
    pub message: String,
    pub is_error: bool,
}

impl NotificationModal {
    /// An informational notification.
    pub fn info(message: String) -> (r: NotificationModal)
        ensures
            r.message@ == message@,
            !r.is_error,
    {
        NotificationModal { message, is_error: false }
    }

    /// An error notification.
    pub fn error(message: String) -> (r: NotificationModal)
        ensures
            r.message@ == message@,
            r.is_error,
    {
        NotificationModal { message, is_error: true }
    }
}

} // verus!
