//! Notification chrome: a portal request is staged, and shown only once the
//! portal delivers it; a drop removes it wherever it is.

use std::collections::BTreeMap;
use vstd::prelude::*;

use crate::protocol::PortalTransferId;
use crate::text::{valid_notification_chrome_text, valid_text};

verus! {

broadcast use vstd::std_specs::btree::group_btree_axioms;

/// At most this many notifications are visible at once.
pub const MAX_CHROME_NOTIFICATIONS: usize = 64;

/// The longest notification summary, in UTF-8 bytes.
pub const MAX_NOTIFICATION_SUMMARY_LEN: usize = 256;

/// The longest notification body, in UTF-8 bytes.
pub const MAX_NOTIFICATION_BODY_LEN: usize = 4096;

/// The longest notification action label, in UTF-8 bytes.
pub const MAX_NOTIFICATION_ACTION_LEN: usize = 64;

/// The most actions one notification may offer.
pub const MAX_NOTIFICATION_ACTIONS: usize = 8;

/// How urgent a notification is.
#[derive(Clone, Copy, Debug, PartialEq, Eq, Structural)]
pub enum NotificationUrgency {
    Low,
    Normal,
    Critical,
}

/// A notification an application asked the portal to show.
#[derive(Clone, Debug, PartialEq, Eq)]
pub struct NotificationRequest {
    pub transfer: PortalTransferId,
    pub summary: String,
    pub body: Option<String>,
    pub urgency: NotificationUrgency,
    pub actions: Vec<String>,
    pub generation: u64,
}

/// The commands the portal broker hands the session.
#[derive(Clone, Copy, Debug, PartialEq, Eq, Structural)]
pub enum PortalCommand {
    DeliverNotification { transfer: PortalTransferId },
    DropNotification { transfer: PortalTransferId },
    FailSelection { transfer: PortalTransferId },
    HandoffClipboard { transfer: PortalTransferId },
}

/// A notification held by the chrome.
#[derive(Clone, Debug, PartialEq, Eq)]
pub struct ChromeNotification {
    pub transfer: PortalTransferId,
    pub summary: String,
    pub body: Option<String>,
    pub urgency: NotificationUrgency,
    pub actions: Vec<String>,
    pub generation: u64,
}

/// A notification as plain text values.
pub struct ChromeNotificationView {
    pub transfer: PortalTransferId,
    pub summary: Seq<char>,
    pub body: Option<Seq<char>>,
    pub urgency: NotificationUrgency,
    pub actions: Seq<Seq<char>>,
    pub generation: u64,
}

pub open spec fn text_of(s: String) -> Seq<char> {
    s@
}

pub open spec fn option_text(s: Option<String>) -> Option<Seq<char>> {
    match s {
        Some(t) => Some(t@),
        None => None,
    }
}

impl View for ChromeNotification {
    type V = ChromeNotificationView;

    open spec fn view(&self) -> ChromeNotificationView {
        ChromeNotificationView {
            transfer: self.transfer,
            summary: self.summary@,
            body: option_text(self.body),
            urgency: self.urgency,
            actions: self.actions@.map_values(|a: String| a@),
            generation: self.generation,
        }
    }
}

/// The notification a request stages.
pub open spec fn notification_of(request: NotificationRequest) -> ChromeNotificationView {
    ChromeNotificationView {
        transfer: request.transfer,
        summary: request.summary@,
        body: option_text(request.body),
        urgency: request.urgency,
        actions: request.actions@.map_values(|a: String| a@),
        generation: request.generation,
    }
}

/// Every text of the request is valid for chrome.
pub open spec fn request_texts_valid(request: NotificationRequest) -> bool {
    &&& valid_text(request.summary@, MAX_NOTIFICATION_SUMMARY_LEN)
    &&& match request.body {
        Some(body) => valid_text(body@, MAX_NOTIFICATION_BODY_LEN),
        None => true,
    }
    &&& forall|i: int|
        0 <= i < request.actions@.len() ==> valid_text(
            #[trigger] request.actions@[i]@,
            MAX_NOTIFICATION_ACTION_LEN,
        )
}

/// What the chrome should do for a portal command.
#[derive(Clone, Copy, Debug, PartialEq, Eq, Structural)]
pub enum NotificationChromeCommand {
    Present { transfer: PortalTransferId },
    Dismiss { transfer: PortalTransferId },
}

/// The result of a request or command.
#[derive(Clone, Copy, Debug, PartialEq, Eq, Structural)]
pub enum NotificationChromeUpdate {
    Staged { transfer: PortalTransferId },
    Presented { transfer: PortalTransferId },
    Dismissed { transfer: PortalTransferId },
    Ignored,
    Rejected(NotificationChromeRejectReason),
}

/// Why a request or command was refused.
#[derive(Clone, Copy, Debug, PartialEq, Eq, Structural)]
pub enum NotificationChromeRejectReason {
    InvalidTransfer,
    InvalidText,
    TooManyActions,
    TooManyVisibleNotifications,
    UnknownTransfer,
}

/// Staged and visible notifications, each keyed by raw transfer id.
pub struct NotificationChromePresenter {
    pending: BTreeMap<u64, ChromeNotification>,
    visible: BTreeMap<u64, ChromeNotification>,
}

/// The pending and visible maps, and the update, after staging `request`.
pub open spec fn stage_step(
    pending: Map<u64, ChromeNotificationView>,
    visible: Map<u64, ChromeNotificationView>,
    request: NotificationRequest,
) -> (Map<u64, ChromeNotificationView>, Map<u64, ChromeNotificationView>, NotificationChromeUpdate) {
    if !request.transfer.spec_valid() {
        (pending, visible, NotificationChromeUpdate::Rejected(NotificationChromeRejectReason::InvalidTransfer))
    } else if !request_texts_valid(request) {
        (pending, visible, NotificationChromeUpdate::Rejected(NotificationChromeRejectReason::InvalidText))
    } else if request.actions@.len() > MAX_NOTIFICATION_ACTIONS {
        (pending, visible, NotificationChromeUpdate::Rejected(NotificationChromeRejectReason::TooManyActions))
    } else {
        (
            pending.insert(request.transfer.raw, notification_of(request)),
            visible,
            NotificationChromeUpdate::Staged { transfer: request.transfer },
        )
    }
}

/// The maps and update after a present command for `transfer`: only a
/// staged notification can become visible, and only while there is room.
pub open spec fn present_step(
    pending: Map<u64, ChromeNotificationView>,
    visible: Map<u64, ChromeNotificationView>,
    transfer: PortalTransferId,
) -> (Map<u64, ChromeNotificationView>, Map<u64, ChromeNotificationView>, NotificationChromeUpdate) {
    let k = transfer.raw;
    if !pending.contains_key(k) {
        (pending, visible, NotificationChromeUpdate::Rejected(NotificationChromeRejectReason::UnknownTransfer))
    } else if visible.len() >= MAX_CHROME_NOTIFICATIONS && !visible.contains_key(k) {
        (
            pending,
            visible,
            NotificationChromeUpdate::Rejected(NotificationChromeRejectReason::TooManyVisibleNotifications),
        )
    } else {
        (pending.remove(k), visible.insert(k, pending[k]), NotificationChromeUpdate::Presented { transfer })
    }
}

/// The maps and update after a dismiss command for `transfer`.
pub open spec fn dismiss_step(
    pending: Map<u64, ChromeNotificationView>,
    visible: Map<u64, ChromeNotificationView>,
    transfer: PortalTransferId,
) -> (Map<u64, ChromeNotificationView>, Map<u64, ChromeNotificationView>, NotificationChromeUpdate) {
    let k = transfer.raw;
    if pending.contains_key(k) || visible.contains_key(k) {
        (pending.remove(k), visible.remove(k), NotificationChromeUpdate::Dismissed { transfer })
    } else {
        (pending, visible, NotificationChromeUpdate::Rejected(NotificationChromeRejectReason::UnknownTransfer))
    }
}

/// The maps and update after `command`.
pub open spec fn command_step(
    pending: Map<u64, ChromeNotificationView>,
    visible: Map<u64, ChromeNotificationView>,
    command: NotificationChromeCommand,
) -> (Map<u64, ChromeNotificationView>, Map<u64, ChromeNotificationView>, NotificationChromeUpdate) {
    match command {
        NotificationChromeCommand::Present { transfer } => present_step(pending, visible, transfer),
        NotificationChromeCommand::Dismiss { transfer } => dismiss_step(pending, visible, transfer),
    }
}

/// The chrome command a portal command carries, if it concerns notifications.
pub open spec fn spec_command_from_portal(command: PortalCommand) -> Option<NotificationChromeCommand> {
    match command {
        PortalCommand::DeliverNotification { transfer } => Some(
            NotificationChromeCommand::Present { transfer },
        ),
        PortalCommand::DropNotification { transfer } => Some(
            NotificationChromeCommand::Dismiss { transfer },
        ),
        _ => None,
    }
}

pub fn notification_chrome_command_from_portal(command: &PortalCommand) -> (chrome:
    Option<NotificationChromeCommand>)
    ensures
        chrome == spec_command_from_portal(*command),
{
    match command {
        PortalCommand::DeliverNotification { transfer } => Some(
            NotificationChromeCommand::Present { transfer: *transfer },
        ),
        PortalCommand::DropNotification { transfer } => Some(
            NotificationChromeCommand::Dismiss { transfer: *transfer },
        ),
        _ => None,
    }
}

fn clone_notification(n: &ChromeNotification) -> (c: ChromeNotification)
    ensures
        c@ == n@,
{
    let actions = clone_texts(&n.actions);
    ChromeNotification {
        transfer: n.transfer,
        summary: n.summary.clone(),
        body: match &n.body {
            Some(b) => Some(b.clone()),
            None => None,
        },
        urgency: n.urgency,
        actions,
        generation: n.generation,
    }
}

fn clone_texts(texts: &Vec<String>) -> (c: Vec<String>)
    ensures
        c@.map_values(|a: String| a@) == texts@.map_values(|a: String| a@),
{
    let mut c: Vec<String> = Vec::new();
    let mut i: usize = 0;
    while i < texts.len()
        invariant
            i <= texts@.len(),
            c@.len() == i,
            forall|k: int| 0 <= k < i ==> (#[trigger] c@[k])@ == texts@[k]@,
        decreases texts@.len() - i,
    {
        c.push(texts[i].clone());
        i = i + 1;
    }
    assert(c@.map_values(|a: String| a@) =~= texts@.map_values(|a: String| a@));
    c
}

/// A presenter starts with nothing staged and nothing visible.
impl Default for NotificationChromePresenter {
    fn default() -> (presenter: NotificationChromePresenter)
        ensures
            presenter.within_limit(),
            presenter.maps_finite(),
            presenter.pending_map() == Map::<u64, ChromeNotificationView>::empty(),
            presenter.visible_map() == Map::<u64, ChromeNotificationView>::empty(),
    {
        NotificationChromePresenter::new()
    }
}

impl NotificationChromePresenter {
    /// Staged notifications, as plain values keyed by raw transfer id.
    pub closed spec fn pending_map(self) -> Map<u64, ChromeNotificationView> {
        self.pending@.map_values(|n: ChromeNotification| n@)
    }

    /// Visible notifications, as plain values keyed by raw transfer id.
    pub closed spec fn visible_map(self) -> Map<u64, ChromeNotificationView> {
        self.visible@.map_values(|n: ChromeNotification| n@)
    }

    /// No more notifications are visible than the chrome shows at once.
    #[verifier::type_invariant]
    spec fn visible_within_limit(self) -> bool {
        self.visible@.len() <= MAX_CHROME_NOTIFICATIONS
    }

    /// Both maps hold finitely many notifications.
    pub open spec fn maps_finite(self) -> bool {
        &&& self.pending_map().dom().finite()
        &&& self.visible_map().dom().finite()
    }

    /// No more notifications are visible than the chrome shows at once.
    pub open spec fn within_limit(self) -> bool {
        self.visible_map().len() <= MAX_CHROME_NOTIFICATIONS
    }

    /// Every presenter holds finitely many notifications in each map.
    pub proof fn lemma_maps_finite(self)
        ensures
            self.maps_finite(),
    {
        self.lemma_map_lens();
    }

    proof fn lemma_map_lens(self)
        ensures
            self.maps_finite(),
            self.pending_map().len() == self.pending@.len(),
            self.visible_map().len() == self.visible@.len(),
    {
        assert(self.pending_map().dom() =~= self.pending@.dom());
        assert(self.visible_map().dom() =~= self.visible@.dom());
    }

    pub fn new() -> (presenter: NotificationChromePresenter)
        ensures
            presenter.within_limit(),
            presenter.maps_finite(),
            presenter.pending_map() == Map::<u64, ChromeNotificationView>::empty(),
            presenter.visible_map() == Map::<u64, ChromeNotificationView>::empty(),
    {
        let presenter = NotificationChromePresenter { pending: BTreeMap::new(), visible: BTreeMap::new() };
        proof {
            presenter.lemma_maps_finite();
        }
        assert(presenter.pending_map() =~= Map::<u64, ChromeNotificationView>::empty());
        assert(presenter.visible_map() =~= Map::<u64, ChromeNotificationView>::empty());
        presenter
    }

    /// Stages a valid request until the portal delivers it.
    pub fn stage_request(&mut self, request: &NotificationRequest) -> (update: NotificationChromeUpdate)
        ensures
            final(self).within_limit(),
            final(self).maps_finite(),
            (final(self).pending_map(), final(self).visible_map(), update) == stage_step(
                old(self).pending_map(),
                old(self).visible_map(),
                *request,
            ),
    {
        proof {
            use_type_invariant(&*self);
            self.lemma_map_lens();
        }
        if !request.transfer.is_valid() {
            return NotificationChromeUpdate::Rejected(NotificationChromeRejectReason::InvalidTransfer);
        }
        if !Self::texts_valid(request) {
            return NotificationChromeUpdate::Rejected(NotificationChromeRejectReason::InvalidText);
        }
        if request.actions.len() > MAX_NOTIFICATION_ACTIONS {
            return NotificationChromeUpdate::Rejected(NotificationChromeRejectReason::TooManyActions);
        }
        let notification = ChromeNotification {
            transfer: request.transfer,
            summary: request.summary.clone(),
            body: match &request.body {
                Some(b) => Some(b.clone()),
                None => None,
            },
            urgency: request.urgency,
            actions: clone_texts(&request.actions),
            generation: request.generation,
        };
        let ghost staged = notification@;
        assert(staged == notification_of(*request));
        let mut pending: BTreeMap<u64, ChromeNotification> = BTreeMap::new();
        std::mem::swap(&mut pending, &mut self.pending);
        pending.insert(request.transfer.raw, notification);
        self.pending = pending;
        assert(self.pending_map() =~= old(self).pending_map().insert(request.transfer.raw, staged));
        proof {
            self.lemma_maps_finite();
        }
        NotificationChromeUpdate::Staged { transfer: request.transfer }
    }

    fn texts_valid(request: &NotificationRequest) -> (valid: bool)
        ensures
            valid == request_texts_valid(*request),
    {
        if !valid_notification_chrome_text(request.summary.as_str(), MAX_NOTIFICATION_SUMMARY_LEN) {
            return false;
        }
        match &request.body {
            Some(body) => {
                if !valid_notification_chrome_text(body.as_str(), MAX_NOTIFICATION_BODY_LEN) {
                    return false;
                }
            },
            None => {},
        }
        let mut i: usize = 0;
        while i < request.actions.len()
            invariant
                i <= request.actions@.len(),
                forall|k: int|
                    0 <= k < i ==> valid_text(
                        #[trigger] request.actions@[k]@,
                        MAX_NOTIFICATION_ACTION_LEN,
                    ),
            decreases request.actions@.len() - i,
        {
            if !valid_notification_chrome_text(request.actions[i].as_str(), MAX_NOTIFICATION_ACTION_LEN) {
                return false;
            }
            i = i + 1;
        }
        true
    }

    /// Applies the notification command a portal command carries; other
    /// portal commands are ignored.
    pub fn apply_portal_command(&mut self, command: &PortalCommand) -> (update: NotificationChromeUpdate)
        ensures
            final(self).within_limit(),
            final(self).maps_finite(),
            match spec_command_from_portal(*command) {
                Some(c) => (final(self).pending_map(), final(self).visible_map(), update)
                    == command_step(old(self).pending_map(), old(self).visible_map(), c),
                None => {
                    &&& update == NotificationChromeUpdate::Ignored
                    &&& final(self).pending_map() == old(self).pending_map()
                    &&& final(self).visible_map() == old(self).visible_map()
                },
            },
    {
        proof {
            use_type_invariant(&*self);
            self.lemma_map_lens();
        }
        match notification_chrome_command_from_portal(command) {
            Some(command) => self.apply_command(command),
            None => NotificationChromeUpdate::Ignored,
        }
    }

    pub fn apply_command(&mut self, command: NotificationChromeCommand) -> (update: NotificationChromeUpdate)
        ensures
            final(self).within_limit(),
            final(self).maps_finite(),
            (final(self).pending_map(), final(self).visible_map(), update) == command_step(
                old(self).pending_map(),
                old(self).visible_map(),
                command,
            ),
    {
        let update = match command {
            NotificationChromeCommand::Present { transfer } => self.present(transfer),
            NotificationChromeCommand::Dismiss { transfer } => self.dismiss(transfer),
        };
        proof {
            use_type_invariant(&*self);
            self.lemma_map_lens();
        }
        update
    }

    /// A copy of the staged notification for `transfer`.
    pub fn pending(&self, transfer: PortalTransferId) -> (found: Option<ChromeNotification>)
        ensures
            match found {
                Some(n) => self.pending_map().contains_key(transfer.raw) && n@ == self.pending_map()[transfer.raw],
                None => !self.pending_map().contains_key(transfer.raw),
            },
    {
        match self.pending.get(&transfer.raw) {
            Some(n) => Some(clone_notification(n)),
            None => None,
        }
    }

    /// A copy of the visible notification for `transfer`.
    pub fn visible(&self, transfer: PortalTransferId) -> (found: Option<ChromeNotification>)
        ensures
            match found {
                Some(n) => self.visible_map().contains_key(transfer.raw) && n@ == self.visible_map()[transfer.raw],
                None => !self.visible_map().contains_key(transfer.raw),
            },
    {
        match self.visible.get(&transfer.raw) {
            Some(n) => Some(clone_notification(n)),
            None => None,
        }
    }

    pub fn pending_len(&self) -> (len: usize)
        ensures
            len == self.pending_map().len(),
    {
        assert(self.pending_map().dom() =~= self.pending@.dom());
        self.pending.len()
    }

    pub fn visible_len(&self) -> (len: usize)
        ensures
            len == self.visible_map().len(),
            len <= MAX_CHROME_NOTIFICATIONS,
    {
        proof {
            use_type_invariant(self);
        }
        assert(self.visible_map().dom() =~= self.visible@.dom());
        self.visible.len()
    }

    fn present(&mut self, transfer: PortalTransferId) -> (update: NotificationChromeUpdate)
        ensures
            (final(self).pending_map(), final(self).visible_map(), update) == present_step(
                old(self).pending_map(),
                old(self).visible_map(),
                transfer,
            ),
    {
        proof {
            use_type_invariant(&*self);
        }
        let k = transfer.raw;
        if !self.pending.contains_key(&k) {
            return NotificationChromeUpdate::Rejected(NotificationChromeRejectReason::UnknownTransfer);
        }
        assert(self.visible_map().dom() =~= self.visible@.dom());
        if self.visible.len() >= MAX_CHROME_NOTIFICATIONS && !self.visible.contains_key(&k) {
            return NotificationChromeUpdate::Rejected(
                NotificationChromeRejectReason::TooManyVisibleNotifications,
            );
        }
        let mut pending: BTreeMap<u64, ChromeNotification> = BTreeMap::new();
        std::mem::swap(&mut pending, &mut self.pending);
        let mut visible: BTreeMap<u64, ChromeNotification> = BTreeMap::new();
        std::mem::swap(&mut visible, &mut self.visible);
        let ghost before = visible@;
        match pending.remove(&k) {
            Some(notification) => {
                visible.insert(k, notification);
            },
            None => {},
        }
        assert(visible@.dom() =~= if before.contains_key(k) { before.dom() } else { before.dom().insert(k) });
        self.pending = pending;
        self.visible = visible;
        assert(self.pending_map() =~= old(self).pending_map().remove(k));
        assert(self.visible_map() =~= old(self).visible_map().insert(k, old(self).pending_map()[k]));
        NotificationChromeUpdate::Presented { transfer }
    }

    fn dismiss(&mut self, transfer: PortalTransferId) -> (update: NotificationChromeUpdate)
        ensures
            (final(self).pending_map(), final(self).visible_map(), update) == dismiss_step(
                old(self).pending_map(),
                old(self).visible_map(),
                transfer,
            ),
    {
        proof {
            use_type_invariant(&*self);
        }
        let k = transfer.raw;
        let mut pending: BTreeMap<u64, ChromeNotification> = BTreeMap::new();
        std::mem::swap(&mut pending, &mut self.pending);
        let mut visible: BTreeMap<u64, ChromeNotification> = BTreeMap::new();
        std::mem::swap(&mut visible, &mut self.visible);
        let ghost before = visible@;
        let removed_pending = pending.remove(&k).is_some();
        let removed_visible = visible.remove(&k).is_some();
        assert(visible@.dom() =~= before.dom().remove(k));
        self.pending = pending;
        self.visible = visible;
        assert(self.pending_map() =~= old(self).pending_map().remove(k));
        assert(self.visible_map() =~= old(self).visible_map().remove(k));
        if removed_pending || removed_visible {
            NotificationChromeUpdate::Dismissed { transfer }
        } else {
            assert(self.pending_map() =~= old(self).pending_map());
            assert(self.visible_map() =~= old(self).visible_map());
            NotificationChromeUpdate::Rejected(NotificationChromeRejectReason::UnknownTransfer)
        }
    }
}

} // verus!
