//! Notification routing rules: scene classification, channel priority,
//! delivery states, and the risk guard's decision.

use vstd::prelude::*;

verus! {

use crate::strutil::{contains_sub, str_contains, str_eq};

/// A delivery channel.
#[derive(Clone, Copy, PartialEq, Eq, Structural, Debug)]
pub enum Channel {
    Sms,
    Email,
    Push,
    Inbox,
}

/// The wire name of a channel.
pub open spec fn spec_channel_name(c: Channel) -> Seq<char> {
    match c {
        Channel::Sms => "sms"@,
        Channel::Email => "email"@,
        Channel::Push => "push"@,
        Channel::Inbox => "inbox"@,
    }
}

impl Channel {
    /// The channel's wire name, as `spec_channel_name` describes.
    pub fn as_str(&self) -> (r: &'static str)
        ensures
            r@ == spec_channel_name(*self),
    {
        match self {
            Channel::Sms => "sms",
            Channel::Email => "email",
            Channel::Push => "push",
            Channel::Inbox => "inbox",
        }
    }
}

/// Where a message stands in its delivery.
#[derive(Clone, Copy, PartialEq, Eq, Structural, Debug)]
pub enum MessageStatus {
    Waiting,
    Processing,
    Sent,
    Delivered,
    Failed,
    Blocked,
}

/// The stored name of a status.
pub open spec fn spec_status_name(s: MessageStatus) -> Seq<char> {
    match s {
        MessageStatus::Waiting => "waiting"@,
        MessageStatus::Processing => "processing"@,
        MessageStatus::Sent => "sent"@,
        MessageStatus::Delivered => "delivered"@,
        MessageStatus::Failed => "failed"@,
        MessageStatus::Blocked => "blocked"@,
    }
}

impl MessageStatus {
    /// The status's stored name, as `spec_status_name` describes.
    pub fn as_str(&self) -> (r: &'static str)
        ensures
            r@ == spec_status_name(*self),
    {
        match self {
            MessageStatus::Waiting => "waiting",
            MessageStatus::Processing => "processing",
            MessageStatus::Sent => "sent",
            MessageStatus::Delivered => "delivered",
            MessageStatus::Failed => "failed",
            MessageStatus::Blocked => "blocked",
        }
    }
}

/// What kind of notification a scene is.
#[derive(Clone, Copy, PartialEq, Eq, Structural, Debug)]
pub enum SceneCategory {
    StrongVerify,
    StrongRemind,
    Marketing,
    UserCare,
    SystemNotify,
}

/// The category a scene name falls under, by the words it holds.
pub open spec fn spec_classify_scene(s: Seq<char>) -> SceneCategory {
    if contains_sub(s, "verify"@) || contains_sub(s, "otp"@) {
        SceneCategory::StrongVerify
    } else if contains_sub(s, "order"@) || contains_sub(s, "payment"@) {
        SceneCategory::StrongRemind
    } else if contains_sub(s, "marketing"@) || contains_sub(s, "campaign"@) {
        SceneCategory::Marketing
    } else if contains_sub(s, "birthday"@) || contains_sub(s, "care"@) {
        SceneCategory::UserCare
    } else {
        SceneCategory::SystemNotify
    }
}

/// Classifies a scene name, as `spec_classify_scene` describes.
pub fn classify_scene(scene: &str) -> (c: SceneCategory)
    ensures
        c == spec_classify_scene(scene@),
{
    if str_contains(scene, "verify") || str_contains(scene, "otp") {
        SceneCategory::StrongVerify
    } else if str_contains(scene, "order") || str_contains(scene, "payment") {
        SceneCategory::StrongRemind
    } else if str_contains(scene, "marketing") || str_contains(scene, "campaign") {
        SceneCategory::Marketing
    } else if str_contains(scene, "birthday") || str_contains(scene, "care") {
        SceneCategory::UserCare
    } else {
        SceneCategory::SystemNotify
    }
}

/// The channels a category is delivered over, most preferred first.
pub open spec fn spec_base_channels(cat: SceneCategory) -> Seq<Channel> {
    match cat {
        SceneCategory::StrongVerify => seq![Channel::Sms, Channel::Inbox],
        SceneCategory::StrongRemind => seq![Channel::Push, Channel::Sms, Channel::Inbox],
        SceneCategory::Marketing => seq![Channel::Push, Channel::Email, Channel::Inbox],
        SceneCategory::UserCare => seq![Channel::Inbox, Channel::Email, Channel::Push],
        SceneCategory::SystemNotify => seq![Channel::Inbox, Channel::Email],
    }
}

/// The channel a hint names, if it names one.
pub open spec fn spec_hint_channel(h: Seq<char>) -> Option<Channel> {
    if h == "sms"@ {
        Some(Channel::Sms)
    } else if h == "email"@ {
        Some(Channel::Email)
    } else if h == "push"@ {
        Some(Channel::Push)
    } else if h == "inbox"@ {
        Some(Channel::Inbox)
    } else {
        None
    }
}

/// The list holds the channel.
pub open spec fn chan_has(s: Seq<Channel>, c: Channel) -> bool {
    exists|i: int| 0 <= i < s.len() && s[i] == c
}

/// An index holding the channel.
pub open spec fn chan_idx(s: Seq<Channel>, c: Channel) -> int {
    choose|i: int| 0 <= i < s.len() && s[i] == c
}

/// The channel priority of a scene: the category's list; a recognized
/// hint moves (or adds) its channel to the front.
pub open spec fn spec_priority_channels(scene: Seq<char>, hint: Option<Seq<char>>) -> Seq<
    Channel,
> {
    let base = spec_base_channels(spec_classify_scene(scene));
    match hint {
        None => base,
        Some(h) => match spec_hint_channel(h) {
            None => base,
            Some(c) => seq![c] + (if chan_has(base, c) {
                base.remove(chan_idx(base, c))
            } else {
                base
            }),
        },
    }
}

/// Orders the channels for a scene, as `spec_priority_channels`
/// describes.
pub fn priority_channels(scene: &str, hint: Option<&str>) -> (r: Vec<Channel>)
    ensures
        r@ == spec_priority_channels(scene@, match hint {
            Some(h) => Some(h@),
            None => None::<Seq<char>>,
        }),
{
    let cat = classify_scene(scene);
    let mut base: Vec<Channel> = Vec::new();
    match cat {
        SceneCategory::StrongVerify => {
            base.push(Channel::Sms);
            base.push(Channel::Inbox);
        },
        SceneCategory::StrongRemind => {
            base.push(Channel::Push);
            base.push(Channel::Sms);
            base.push(Channel::Inbox);
        },
        SceneCategory::Marketing => {
            base.push(Channel::Push);
            base.push(Channel::Email);
            base.push(Channel::Inbox);
        },
        SceneCategory::UserCare => {
            base.push(Channel::Inbox);
            base.push(Channel::Email);
            base.push(Channel::Push);
        },
        SceneCategory::SystemNotify => {
            base.push(Channel::Inbox);
            base.push(Channel::Email);
        },
    }
    assert(base@ =~= spec_base_channels(cat));
    assert(forall|a: int, b: int| 0 <= a < b < base@.len() ==> base@[a] != base@[b]);
    let hinted: Option<Channel> = match hint {
        None => None,
        Some(h) => {
            if str_eq(h, "sms") {
                Some(Channel::Sms)
            } else if str_eq(h, "email") {
                Some(Channel::Email)
            } else if str_eq(h, "push") {
                Some(Channel::Push)
            } else if str_eq(h, "inbox") {
                Some(Channel::Inbox)
            } else {
                None
            }
        },
    };
    let c = match hinted {
        None => {
            return base;
        },
        Some(c) => c,
    };
    let ghost base0 = base@;
    let mut pos: usize = 0;
    let n = base.len();
    let mut found = false;
    while pos < n && !found
        invariant
            pos <= n,
            n == base@.len(),
            base@ == base0,
            !found ==> forall|j: int| 0 <= j < pos ==> base@[j] != c,
            found ==> pos < n && base@[pos as int] == c && forall|j: int|
                0 <= j < pos ==> base@[j] != c,
        decreases n - pos + (if found { 0int } else { 1int }),
    {
        if base[pos] == c {
            found = true;
        } else {
            pos = pos + 1;
        }
    }
    if found {
        proof {
            assert(chan_has(base0, c));
            let w = chan_idx(base0, c);
            assert(0 <= w < base0.len() && base0[w] == c);
            if w < pos {
                assert(base0[w] != c);
            }
            if pos < w {
                assert(forall|a: int, b: int| 0 <= a < b < base0.len() ==> base0[a] != base0[b]);
                assert(base0[pos as int] != base0[w]);
            }
            assert(w == pos as int);
        }
        base.remove(pos);
    } else {
        proof {
            if chan_has(base0, c) {
                let w = chan_idx(base0, c);
                assert(base0[w] != c);
            }
        }
    }
    base.insert(0, c);
    assert(base@ =~= spec_priority_channels(scene@, match hint {
        Some(h) => Some(h@),
        None => None::<Seq<char>>,
    }));
    base
}

/// Why the risk guard refuses a message.
#[derive(Clone, Copy, PartialEq, Eq, Structural, Debug)]
pub enum RiskError {
    /// The user is on the blacklist.
    Blacklist,
    /// Too many messages for this user and scene inside the window.
    TooManyRequests,
    /// The local hour falls into the quiet period.
    QuietTime,
}

impl RiskError {
    /// A short description of the refusal.
    pub fn message(&self) -> (r: &'static str)
        ensures
            (*self == RiskError::Blacklist ==> r@ == "user is in blacklist"@),
            (*self == RiskError::TooManyRequests ==> r@ == "too many requests"@),
            (*self == RiskError::QuietTime ==> r@ == "quiet time"@),
    {
        match self {
            RiskError::Blacklist => "user is in blacklist",
            RiskError::TooManyRequests => "too many requests",
            RiskError::QuietTime => "quiet time",
        }
    }
}

/// The risk guard's decision: a blacklisted user is refused; then the
/// quiet hours from 22:00 to 08:00 refuse everything; then more than
/// four recent messages for the same user and scene are too many.
pub fn check_risk(blacklisted: bool, local_hour: u8, recent_count: u64) -> (r: Result<
    (),
    RiskError,
>)
    requires
        local_hour < 24,
    ensures
        (blacklisted ==> r == Result::<(), RiskError>::Err(RiskError::Blacklist)),
        (!blacklisted && (local_hour >= 22 || local_hour < 8) ==> r == Result::<
            (),
            RiskError,
        >::Err(RiskError::QuietTime)),
        (!blacklisted && 8 <= local_hour < 22 && recent_count >= 5 ==> r == Result::<
            (),
            RiskError,
        >::Err(RiskError::TooManyRequests)),
        (!blacklisted && 8 <= local_hour < 22 && recent_count < 5 ==> r == Result::<
            (),
            RiskError,
        >::Ok(())),
{
    if blacklisted {
        return Err(RiskError::Blacklist);
    }
    if local_hour >= 22 || local_hour < 8 {
        return Err(RiskError::QuietTime);
    }
    if recent_count >= 5 {
        return Err(RiskError::TooManyRequests);
    }
    Ok(())
}

/// The rate window's entries still counted at the given instant: those
/// at most one minute old.
pub open spec fn spec_prune_window(ts: Seq<i64>, now_ms: int, k: int) -> Seq<i64>
    decreases ts.len() - k,
{
    if k < 0 || k >= ts.len() {
        Seq::<i64>::empty()
    } else if now_ms - ts[k] <= 60000 {
        seq![ts[k]] + spec_prune_window(ts, now_ms, k + 1)
    } else {
        spec_prune_window(ts, now_ms, k + 1)
    }
}

/// Drops rate-window entries older than one minute, keeping order.
pub fn prune_window(ts: &Vec<i64>, now_ms: i64) -> (r: Vec<i64>)
    requires
        now_ms >= 0,
    ensures
        r@ == spec_prune_window(ts@, now_ms as int, 0),
{
    let n = ts.len();
    let mut r: Vec<i64> = Vec::new();
    let mut k: usize = 0;
    while k < n
        invariant
            k <= n,
            n == ts@.len(),
            now_ms >= 0,
            spec_prune_window(ts@, now_ms as int, 0) == r@ + spec_prune_window(
                ts@,
                now_ms as int,
                k as int,
            ),
        decreases n - k,
    {
        let ghost pre = r@;
        if ts[k] >= now_ms - 60000 {
            r.push(ts[k]);
            assert(r@ =~= pre.push(ts@[k as int]));
            assert(pre + (seq![ts@[k as int]] + spec_prune_window(ts@, now_ms as int, k + 1))
                =~= pre.push(ts@[k as int]) + spec_prune_window(ts@, now_ms as int, k + 1));
        }
        k = k + 1;
    }
    assert(r@ + spec_prune_window(ts@, now_ms as int, n as int) =~= r@);
    r
}

} // verus!
