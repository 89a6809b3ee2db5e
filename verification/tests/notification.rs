use sophia_engine::notification::{
    NotificationChromePresenter, NotificationChromeRejectReason, NotificationChromeUpdate, NotificationRequest,
    NotificationUrgency, PortalCommand, MAX_CHROME_NOTIFICATIONS,
};
use sophia_engine::protocol::PortalTransferId;

fn request(raw: u64) -> NotificationRequest {
    NotificationRequest {
        transfer: PortalTransferId::from_raw(raw),
        summary: "Done".to_owned(),
        body: None,
        urgency: NotificationUrgency::Low,
        actions: Vec::new(),
        generation: 1,
    }
}

#[test]
fn notification_chrome_never_shows_more_than_its_limit() {
    let mut presenter = NotificationChromePresenter::new();
    for raw in 1..=(MAX_CHROME_NOTIFICATIONS as u64 + 1) {
        presenter.stage_request(&request(raw));
        presenter.apply_portal_command(&PortalCommand::DeliverNotification {
            transfer: PortalTransferId::from_raw(raw),
        });
        assert!(presenter.visible_len() <= MAX_CHROME_NOTIFICATIONS);
    }
    assert_eq!(presenter.visible_len(), MAX_CHROME_NOTIFICATIONS);
    assert_eq!(presenter.pending_len(), 1);
    let last = PortalTransferId::from_raw(MAX_CHROME_NOTIFICATIONS as u64 + 1);
    assert_eq!(
        presenter.apply_portal_command(&PortalCommand::DeliverNotification { transfer: last }),
        NotificationChromeUpdate::Rejected(NotificationChromeRejectReason::TooManyVisibleNotifications)
    );
    presenter.apply_portal_command(&PortalCommand::DropNotification { transfer: PortalTransferId::from_raw(1) });
    assert_eq!(
        presenter.apply_portal_command(&PortalCommand::DeliverNotification { transfer: last }),
        NotificationChromeUpdate::Presented { transfer: last }
    );
    assert_eq!(presenter.visible_len(), MAX_CHROME_NOTIFICATIONS);
}
