use vstd::prelude::*;
use crate::messages::MessageKind;

verus! {

/// What the page does once the server has answered a request: fetch the
/// root listing again, go back to the index view (at a given directory with
/// a given entry selected, when one is given), close the open alert, select
/// another entry in place of one that is gone, and show a message for a
/// number of milliseconds.
pub struct FollowUp {
    pub refresh_root: bool,
    pub back_to_index: bool,
    pub select: Option<(Vec<String>, Option<String>)>,
    pub close_alert: bool,
    pub reselect: bool,
    pub message: Option<(MessageKind, String, u32)>,
}

/// The state of a button: busy with a request, ready to act, or refused.
#[derive(Clone, Copy, PartialEq, Eq, Structural, Debug)]
pub enum ButtonMode {
    Process,
    Active,
    Disabled,
}

/// Whether a follow-up does nothing but show `kind` with `text` for
/// `timeout` milliseconds.
pub open spec fn only_message(f: FollowUp, kind: MessageKind, text: Seq<char>, timeout: u32) -> bool {
    &&& !f.refresh_root
    &&& !f.back_to_index
    &&& f.select is None
    &&& !f.close_alert
    &&& !f.reselect
    &&& f.message matches Some((k, m, t)) && k == kind && m@ == text && t == timeout
}

/// A follow-up that only shows an error message.
pub fn error_follow_up(message: String, timeout: u32) -> (res: FollowUp)
    ensures
        only_message(res, MessageKind::Error, message@, timeout),
{
    FollowUp {
        refresh_root: false,
        back_to_index: false,
        select: None,
        close_alert: false,
        reselect: false,
        message: Some((MessageKind::Error, message, timeout)),
    }
}

} // verus!
