use monitor_host::notify::{Channel, MessageStatus, SceneCategory, classify_scene,
    priority_channels, RiskError, check_risk, prune_window};

#[test]
fn scenes_classify_by_keywords() {
    assert_eq!(classify_scene("login-verify"), SceneCategory::StrongVerify);
    assert_eq!(classify_scene("otp-code"), SceneCategory::StrongVerify);
    assert_eq!(classify_scene("order-shipped"), SceneCategory::StrongRemind);
    assert_eq!(classify_scene("payment-done"), SceneCategory::StrongRemind);
    assert_eq!(classify_scene("marketing-blast"), SceneCategory::Marketing);
    assert_eq!(classify_scene("spring-campaign"), SceneCategory::Marketing);
    assert_eq!(classify_scene("birthday-wish"), SceneCategory::UserCare);
    assert_eq!(classify_scene("customer-care"), SceneCategory::UserCare);
    assert_eq!(classify_scene("anything-else"), SceneCategory::SystemNotify);
}

#[test]
fn priorities_follow_the_category() {
    assert_eq!(priority_channels("otp-login", None), vec![Channel::Sms, Channel::Inbox]);
    assert_eq!(
        priority_channels("order-x", None),
        vec![Channel::Push, Channel::Sms, Channel::Inbox]
    );
    assert_eq!(priority_channels("plain", None), vec![Channel::Inbox, Channel::Email]);
}

#[test]
fn a_hint_moves_its_channel_to_the_front() {
    assert_eq!(
        priority_channels("order-x", Some("inbox")),
        vec![Channel::Inbox, Channel::Push, Channel::Sms]
    );
    assert_eq!(
        priority_channels("plain", Some("sms")),
        vec![Channel::Sms, Channel::Inbox, Channel::Email]
    );
    assert_eq!(
        priority_channels("plain", Some("nonsense")),
        vec![Channel::Inbox, Channel::Email]
    );
}

#[test]
fn names_of_channels_and_statuses() {
    assert_eq!(Channel::Sms.as_str(), "sms");
    assert_eq!(Channel::Email.as_str(), "email");
    assert_eq!(Channel::Push.as_str(), "push");
    assert_eq!(Channel::Inbox.as_str(), "inbox");
    assert_eq!(MessageStatus::Waiting.as_str(), "waiting");
    assert_eq!(MessageStatus::Processing.as_str(), "processing");
    assert_eq!(MessageStatus::Sent.as_str(), "sent");
    assert_eq!(MessageStatus::Delivered.as_str(), "delivered");
    assert_eq!(MessageStatus::Failed.as_str(), "failed");
    assert_eq!(MessageStatus::Blocked.as_str(), "blocked");
}

#[test]
fn risk_guard_decides_in_order() {
    assert_eq!(check_risk(true, 12, 0), Err(RiskError::Blacklist));
    assert_eq!(check_risk(false, 23, 0), Err(RiskError::QuietTime));
    assert_eq!(check_risk(false, 7, 0), Err(RiskError::QuietTime));
    assert_eq!(check_risk(false, 12, 5), Err(RiskError::TooManyRequests));
    assert_eq!(check_risk(false, 12, 4), Ok(()));
    assert_eq!(check_risk(true, 23, 9), Err(RiskError::Blacklist));
}

#[test]
fn risk_errors_have_messages() {
    assert_eq!(RiskError::Blacklist.message(), "user is in blacklist");
    assert_eq!(RiskError::TooManyRequests.message(), "too many requests");
    assert_eq!(RiskError::QuietTime.message(), "quiet time");
}

#[test]
fn rate_window_drops_old_entries() {
    let ts = vec![0i64, 50_000, 39_999, 100_000];
    let kept = prune_window(&ts, 100_000);
    assert_eq!(kept, vec![50_000, 100_000]);
}
