//! The global notification outlet and the classes of a notification by tone.
use vstd::prelude::*;
use crate::storage::SaveStatus;
use crate::ui::recipes::{
    GlobalNotificationTone, UI_CONTROL_TEXT_CLASS, global_notification, global_notification_outlet,
    notification_tone_classes,
};

verus! {

broadcast use vstd::string::group_string_axioms;

/// How a notification reads: work in progress, done, or failed.
#[derive(Debug, Clone, Copy, PartialEq, Eq, Structural)]
pub enum NotificationTone {
    Progress,
    Success,
    Error,
}

/// The recipe tone of a notification tone.
pub open spec fn recipe_tone(tone: NotificationTone) -> GlobalNotificationTone {
    match tone {
        NotificationTone::Progress => GlobalNotificationTone::Progress,
        NotificationTone::Success => GlobalNotificationTone::Success,
        NotificationTone::Error => GlobalNotificationTone::Error,
    }
}

/// Where notifications stand on the screen: the outlet recipe.
pub fn notification_outlet_classes() -> (r: &'static str)
    ensures
        r@ == "pointer-events-none fixed bottom-16 right-3 z-50 flex min-w-0 justify-end sm:bottom-auto sm:right-5 sm:top-5"@,
{
    global_notification_outlet()
}

/// A notification of a tone: the notification recipe for that tone.
pub fn notification_classes(tone: NotificationTone) -> (r: String)
    ensures
        r@ == "pointer-events-auto max-w-[11rem] truncate rounded-md border px-3 py-1 "@
            + UI_CONTROL_TEXT_CLASS@ + " font-medium shadow-sm "@ + notification_tone_classes(
            recipe_tone(tone),
        ),
{
    global_notification(
        match tone {
            NotificationTone::Progress => GlobalNotificationTone::Progress,
            NotificationTone::Success => GlobalNotificationTone::Success,
            NotificationTone::Error => GlobalNotificationTone::Error,
        },
    )
}

/// The identity handed out after `sequence`, wrapping past the largest.
pub open spec fn next_id(sequence: u64) -> u64 {
    if sequence == u64::MAX {
        0
    } else {
        (sequence + 1) as u64
    }
}

/// A notification shown over the app, with the identity it was shown under.
#[derive(Debug, Clone, PartialEq, Eq)]
pub struct GlobalNotification {
    pub id: u64,
    pub message: String,
    pub tone: NotificationTone,
}

/// The notification a save shows about itself.
pub open spec fn is_save_message(message: Seq<char>) -> bool {
    message == "Saving..."@ || message == "Saved"@
}

/// Whether a message is one a save shows about itself.
pub fn is_save_notification(message: &str) -> (r: bool)
    ensures
        r == is_save_message(message@),
{
    crate::text::str_equal(message, "Saving...") || crate::text::str_equal(message, "Saved")
}

/// The notification shown, if any, and the last identity handed out.
#[derive(Debug, Clone, PartialEq, Eq)]
pub struct NotificationCenter {
    current: Option<GlobalNotification>,
    sequence: u64,
}

/// The notification center as plain values: the shown notification's
/// identity, message and tone, and the last identity handed out.
pub struct NotificationCenterView {
    pub current: Option<(u64, Seq<char>, NotificationTone)>,
    pub sequence: u64,
}

impl View for NotificationCenter {
    type V = NotificationCenterView;

    closed spec fn view(&self) -> NotificationCenterView {
        NotificationCenterView {
            current: match self.current {
                Some(n) => Some((n.id, n.message@, n.tone)),
                None => None,
            },
            sequence: self.sequence,
        }
    }
}

impl NotificationCenter {
    /// Nothing shown yet.
    pub fn new() -> (r: Self)
        ensures
            r@.current is None,
            r@.sequence == 0,
    {
        NotificationCenter { current: None, sequence: 0 }
    }

    /// The notification shown, if any.
    pub fn current(&self) -> (r: Option<GlobalNotification>)
        ensures
            match self@.current {
                Some((id, message, tone)) => r matches Some(n) && n.id == id && n.message@
                    == message && n.tone == tone,
                None => r is None,
            },
    {
        match &self.current {
            Some(n) => Some(GlobalNotification { id: n.id, message: n.message.clone(), tone: n.tone }),
            None => None,
        }
    }

    /// Shows a notification under a new identity, replacing any shown one.
    pub fn show(&mut self, message: String, tone: NotificationTone) -> (id: u64)
        ensures
            id == next_id(old(self)@.sequence),
            final(self)@.sequence == id,
            final(self)@.current == Some((id, message@, tone)),
    {
        let id = self.sequence.wrapping_add(1);
        self.sequence = id;
        self.current = Some(GlobalNotification { id, message, tone });
        id
    }

    /// Shows a save's own notification unless another kind is shown, which
    /// a save never hides; says whether it was shown.
    pub fn show_save(&mut self, message: String, tone: NotificationTone) -> (shown: bool)
        ensures
            shown == match old(self)@.current {
                None => true,
                Some((_, m, _)) => is_save_message(m),
            },
            shown ==> final(self)@.sequence == next_id(old(self)@.sequence) && final(self)@.current
                == Some((final(self)@.sequence, message@, tone)),
            !shown ==> final(self)@ == old(self)@,
    {
        let can_replace = match &self.current {
            None => true,
            Some(n) => is_save_notification(n.message.as_str()),
        };
        if can_replace {
            self.show(message, tone);
        }
        can_replace
    }

    /// Hides the notification shown under `id`; a newer one stays.
    pub fn clear(&mut self, id: u64)
        ensures
            final(self)@.sequence == old(self)@.sequence,
            final(self)@.current == match old(self)@.current {
                Some(c) => if c.0 == id {
                    None
                } else {
                    Some(c)
                },
                None => None::<(u64, Seq<char>, NotificationTone)>,
            },
    {
        let matches_id = match &self.current {
            Some(n) => n.id == id,
            None => false,
        };
        if matches_id {
            self.current = None;
        }
    }
}

/// Two notifications shown one after the other get different identities,
/// so clearing the first one's identity never hides the second.
pub proof fn lemma_consecutive_ids_differ(sequence: u64)
    ensures
        next_id(next_id(sequence)) != next_id(sequence),
{
}

/// What the save indicator reads for a status, and the tone of the
/// notification a change to that status shows.
pub fn save_status_notice(status: SaveStatus) -> (r: (&'static str, NotificationTone))
    ensures
        r.0@ == (match status {
            SaveStatus::Saving => "Saving..."@,
            SaveStatus::Saved => "Saved"@,
        }),
        r.1 == (match status {
            SaveStatus::Saving => NotificationTone::Progress,
            SaveStatus::Saved => NotificationTone::Success,
        }),
        is_save_message(r.0@),
{
    proof {
        reveal_strlit("Saving...");
        reveal_strlit("Saved");
    }
    match status {
        SaveStatus::Saving => ("Saving...", NotificationTone::Progress),
        SaveStatus::Saved => ("Saved", NotificationTone::Success),
    }
}

} // verus!
