//! The workspace's decisions on extension requests from the management page
//! and on reports of the extension runtime: how settings change, when a
//! request is refused, and which status line the page shows.
use vstd::prelude::*;
use crate::extensions_panel::{ExtensionSettings, SettingValue, setting_views};
use crate::keyed::entries_map;
use crate::keyed::KeyedMap;
use crate::text::{owned, push_decimal, decimal, signed_decimal, i64_string, str_eq};

verus! {

/// A status line: a localized message with named text arguments, or text
/// shown as it is (such as an error reported by the runtime).
pub enum StatusText {
    Message { key: String, args: Vec<(String, String)> },
    Raw(String),
}

/// Mathematical form of a status line.
pub enum StatusView {
    Message { key: Seq<char>, args: Seq<(Seq<char>, Seq<char>)> },
    Raw(Seq<char>),
}

impl View for StatusText {
    type V = StatusView;

    open spec fn view(&self) -> StatusView {
        match self {
            StatusText::Message { key, args } => StatusView::Message {
                key: key@,
                args: args@.map_values(|a: (String, String)| (a.0@, a.1@)),
            },
            StatusText::Raw(text) => StatusView::Raw(text@),
        }
    }
}

/// A message without arguments.
pub open spec fn msg(key: Seq<char>) -> StatusView {
    StatusView::Message { key, args: seq![] }
}

/// A message with one argument.
pub open spec fn msg1(key: Seq<char>, name: Seq<char>, value: Seq<char>) -> StatusView {
    StatusView::Message { key, args: seq![(name, value)] }
}

pub(crate) fn message(key: &str) -> (r: StatusText)
    ensures
        r@ == msg(key@),
{
    let args: Vec<(String, String)> = Vec::new();
    assert(args@.map_values(|a: (String, String)| (a.0@, a.1@)) =~= Seq::<(Seq<char>, Seq<char>)>::empty());
    StatusText::Message { key: owned(key), args }
}

pub(crate) fn message1(key: &str, name: &str, value: String) -> (r: StatusText)
    ensures
        r@ == msg1(key@, name@, value@),
{
    let mut args: Vec<(String, String)> = Vec::new();
    let ghost v = value@;
    args.push((owned(name), value));
    assert(args@.map_values(|a: (String, String)| (a.0@, a.1@)) =~= seq![(name@, v)]);
    StatusText::Message { key: owned(key), args }
}

fn decimal_string(n: u64) -> (r: String)
    ensures
        r@ == decimal(n as nat),
{
    let mut s = String::new();
    push_decimal(&mut s, n);
    assert(Seq::<char>::empty() + decimal(n as nat) =~= decimal(n as nat));
    s
}

/// What a subscription request did.
#[derive(Clone, Copy, Debug, PartialEq, Eq, Structural)]
pub enum SubscriptionOutcome {
    /// Refused: only a trusted extension can subscribe.
    NeedsTrust,
    Subscribed,
    Unsubscribed,
}

/// Subscribe an extension to trigger `trigger_id`, or unsubscribe it. An
/// untrusted extension cannot subscribe, and its settings stay as they were.
pub fn apply_subscription(settings: &mut ExtensionSettings, trigger_id: &str, subscribed: bool) -> (r:
    SubscriptionOutcome)
    requires
        old(settings).subscribed_triggers.wf(),
    ensures
        final(settings).subscribed_triggers.wf(),
        final(settings).trusted == old(settings).trusted,
        final(settings).values == old(settings).values,
        subscribed && !old(settings).trusted ==> r == SubscriptionOutcome::NeedsTrust
            && final(settings).subscribed_triggers@ == old(settings).subscribed_triggers@,
        subscribed && old(settings).trusted ==> r == SubscriptionOutcome::Subscribed
            && final(settings).subscribed_triggers@.dom() == old(settings).subscribed_triggers@.dom().insert(
            trigger_id@,
        ),
        !subscribed ==> r == SubscriptionOutcome::Unsubscribed
            && final(settings).subscribed_triggers@.dom() == old(settings).subscribed_triggers@.dom().remove(
            trigger_id@,
        ),
{
    if subscribed && !settings.trusted {
        return SubscriptionOutcome::NeedsTrust;
    }
    let ghost before = settings.subscribed_triggers@;
    if subscribed {
        settings.subscribed_triggers.insert(owned(trigger_id), ());
        assert(settings.subscribed_triggers@.dom() =~= before.dom().insert(trigger_id@));
        SubscriptionOutcome::Subscribed
    } else {
        settings.subscribed_triggers.remove(&owned(trigger_id));
        assert(settings.subscribed_triggers@.dom() =~= before.dom().remove(trigger_id@));
        SubscriptionOutcome::Unsubscribed
    }
}

/// The status line after a subscription request for the trigger labelled
/// `label`.
pub open spec fn spec_subscription_status(outcome: SubscriptionOutcome, label: Seq<char>) -> StatusView {
    match outcome {
        SubscriptionOutcome::NeedsTrust => msg("extensions-status-trust-subscribe"@),
        SubscriptionOutcome::Subscribed => msg1("extensions-status-subscribed"@, "label"@, label),
        SubscriptionOutcome::Unsubscribed => msg1("extensions-status-unsubscribed"@, "label"@, label),
    }
}

/// The status line after a subscription request.
pub fn subscription_status(outcome: SubscriptionOutcome, label: &str) -> (r: StatusText)
    ensures
        r@ == spec_subscription_status(outcome, label@),
{
    match outcome {
        SubscriptionOutcome::NeedsTrust => message("extensions-status-trust-subscribe"),
        SubscriptionOutcome::Subscribed => message1("extensions-status-subscribed", "label", owned(label)),
        SubscriptionOutcome::Unsubscribed => message1("extensions-status-unsubscribed", "label", owned(label)),
    }
}

/// Record whether an extension is trusted. Revoking trust drops every
/// subscription; the result says whether its running work must be
/// cancelled (exactly when trust was revoked).
pub fn apply_trust(settings: &mut ExtensionSettings, trusted: bool) -> (cancel_runs: bool)
    requires
        old(settings).subscribed_triggers.wf(),
    ensures
        final(settings).subscribed_triggers.wf(),
        final(settings).trusted == trusted,
        final(settings).values == old(settings).values,
        final(settings).subscribed_triggers@.dom() == if trusted {
            old(settings).subscribed_triggers@.dom()
        } else {
            Set::<Seq<char>>::empty()
        },
        cancel_runs == !trusted,
{
    settings.trusted = trusted;
    if !trusted {
        settings.subscribed_triggers.clear();
        assert(settings.subscribed_triggers@.dom() =~= Set::<Seq<char>>::empty());
    }
    !trusted
}

/// Settings of an extension nobody has configured yet: untrusted, with no
/// subscription and no value.
pub fn default_settings() -> (r: ExtensionSettings)
    ensures
        !r.trusted,
        r.subscribed_triggers.wf(),
        r.values.wf(),
        r.subscribed_triggers@ == Map::<Seq<char>, ()>::empty(),
        r.values@ == Map::<Seq<char>, SettingValue>::empty(),
{
    ExtensionSettings { trusted: false, subscribed_triggers: KeyedMap::new(), values: KeyedMap::new() }
}

/// The status line after asking to cancel an extension's runs, `cancelled`
/// of which were running.
pub open spec fn spec_cancel_status(cancelled: u64) -> StatusView {
    if cancelled == 0 {
        msg("extensions-status-no-active-run"@)
    } else {
        msg1("extensions-status-cancel-requested"@, "count"@, decimal(cancelled as nat))
    }
}

/// The status line after asking to cancel an extension's runs.
pub fn cancel_status(cancelled: u64) -> (r: StatusText)
    ensures
        r@ == spec_cancel_status(cancelled),
{
    if cancelled == 0 {
        message("extensions-status-no-active-run")
    } else {
        message1("extensions-status-cancel-requested", "count", decimal_string(cancelled))
    }
}

/// Why a manual run is refused, if it is: the extension must be trusted and
/// have a manual handler.
pub open spec fn spec_run_now_refusal(trusted: bool, has_manual_handler: bool) -> Option<StatusView> {
    if !trusted {
        Some(msg("extensions-status-trust-run"@))
    } else if !has_manual_handler {
        Some(msg("extensions-status-no-manual-handler"@))
    } else {
        None
    }
}

/// Why a manual run is refused, if it is.
pub fn run_now_refusal(trusted: bool, has_manual_handler: bool) -> (r: Option<StatusText>)
    ensures
        match r {
            Some(t) => spec_run_now_refusal(trusted, has_manual_handler) == Some(t@),
            None => spec_run_now_refusal(trusted, has_manual_handler) is None,
        },
{
    if !trusted {
        Some(message("extensions-status-trust-run"))
    } else if !has_manual_handler {
        Some(message("extensions-status-no-manual-handler"))
    } else {
        None
    }
}

/// The status line after submitting a run: queued with its number, already
/// running (coalesced), or refused with the runtime's error.
pub open spec fn spec_run_submitted_status(result: Result<Option<u64>, Seq<char>>) -> StatusView {
    match result {
        Ok(Some(run_id)) => msg1("extensions-status-queued-run"@, "run_id"@, decimal(run_id as nat)),
        Ok(None) => msg("extensions-status-already-running"@),
        Err(error) => StatusView::Raw(error),
    }
}

/// The status line after submitting a run.
pub fn run_submitted_status(result: Result<Option<u64>, String>) -> (r: StatusText)
    ensures
        r@ == spec_run_submitted_status(
            match result {
                Ok(x) => Ok(x),
                Err(e) => Err(e@),
            },
        ),
{
    match result {
        Ok(Some(run_id)) => message1("extensions-status-queued-run", "run_id", decimal_string(run_id)),
        Ok(None) => message("extensions-status-already-running"),
        Err(error) => StatusText::Raw(error),
    }
}

/// A report of the extension runtime about one run.
pub enum ExtensionEvent {
    RunQueued { extension_id: String, run_id: u64 },
    RunStarted { extension_id: String, run_id: u64 },
    WorkerError { extension_id: String, summary: String },
    /// The run ended, with an error if it failed.
    RunFinished { extension_id: String, run_id: u64, error: Option<String> },
}

/// The extension a runtime report is about.
pub fn event_extension(event: &ExtensionEvent) -> (r: &String)
    ensures
        r@ == match event {
            ExtensionEvent::RunQueued { extension_id, .. } => extension_id@,
            ExtensionEvent::RunStarted { extension_id, .. } => extension_id@,
            ExtensionEvent::WorkerError { extension_id, .. } => extension_id@,
            ExtensionEvent::RunFinished { extension_id, .. } => extension_id@,
        },
{
    match event {
        ExtensionEvent::RunQueued { extension_id, .. } => extension_id,
        ExtensionEvent::RunStarted { extension_id, .. } => extension_id,
        ExtensionEvent::WorkerError { extension_id, .. } => extension_id,
        ExtensionEvent::RunFinished { extension_id, .. } => extension_id,
    }
}

/// The status line a runtime report leads to.
pub open spec fn spec_event_status(event: ExtensionEvent) -> StatusView {
    match event {
        ExtensionEvent::RunQueued { run_id, .. } => msg1(
            "extensions-status-queued-run"@,
            "run_id"@,
            decimal(run_id as nat),
        ),
        ExtensionEvent::RunStarted { run_id, .. } => msg1(
            "extensions-status-run-running"@,
            "run_id"@,
            decimal(run_id as nat),
        ),
        ExtensionEvent::WorkerError { summary, .. } => StatusView::Raw(summary@),
        ExtensionEvent::RunFinished { run_id, error, .. } => match error {
            Some(e) => StatusView::Message {
                key: "extensions-status-run-failed"@,
                args: seq![("run_id"@, decimal(run_id as nat)), ("error"@, e@)],
            },
            None => msg1("extensions-status-run-completed"@, "run_id"@, decimal(run_id as nat)),
        },
    }
}

/// The status line a runtime report leads to.
pub fn event_status(event: &ExtensionEvent) -> (r: StatusText)
    ensures
        r@ == spec_event_status(*event),
{
    match event {
        ExtensionEvent::RunQueued { run_id, .. } => message1(
            "extensions-status-queued-run",
            "run_id",
            decimal_string(*run_id),
        ),
        ExtensionEvent::RunStarted { run_id, .. } => message1(
            "extensions-status-run-running",
            "run_id",
            decimal_string(*run_id),
        ),
        ExtensionEvent::WorkerError { summary, .. } => StatusText::Raw(summary.clone()),
        ExtensionEvent::RunFinished { run_id, error, .. } => match error {
            Some(e) => {
                let mut args: Vec<(String, String)> = Vec::new();
                let id = decimal_string(*run_id);
                let ghost idv = id@;
                args.push((owned("run_id"), id));
                args.push((owned("error"), e.clone()));
                assert(args@.map_values(|a: (String, String)| (a.0@, a.1@)) =~= seq![
                    ("run_id"@, idv),
                    ("error"@, e@),
                ]);
                StatusText::Message { key: owned("extensions-status-run-failed"), args }
            },
            None => message1("extensions-status-run-completed", "run_id", decimal_string(*run_id)),
        },
    }
}

/// The status line after editing a setting: invalid, or unsaved.
pub open spec fn spec_setting_edit_status(valid: bool) -> StatusView {
    if valid {
        msg("extensions-status-unsaved-settings"@)
    } else {
        msg("extensions-status-invalid-setting"@)
    }
}

/// The status line after editing a setting.
pub fn setting_edit_status(valid: bool) -> (r: StatusText)
    ensures
        r@ == spec_setting_edit_status(valid),
{
    if valid {
        message("extensions-status-unsaved-settings")
    } else {
        message("extensions-status-invalid-setting")
    }
}

/// What to do with a package picked for installation.
#[derive(Clone, Copy, Debug, PartialEq, Eq, Structural)]
pub enum InstallStep {
    /// Refuse: a bundled extension cannot be replaced.
    RefuseBundled,
    /// Ask the user to confirm replacing the installed copy.
    ConfirmReplacement,
    /// Install it.
    Install,
}

/// What to do with a package picked for installation.
pub fn install_step(replaces_bundled: bool, already_installed: bool) -> (r: InstallStep)
    ensures
        r == (if replaces_bundled {
            InstallStep::RefuseBundled
        } else if already_installed {
            InstallStep::ConfirmReplacement
        } else {
            InstallStep::Install
        }),
{
    if replaces_bundled {
        InstallStep::RefuseBundled
    } else if already_installed {
        InstallStep::ConfirmReplacement
    } else {
        InstallStep::Install
    }
}

/// The status line for a step that stops before installing.
pub fn install_step_status(step: InstallStep) -> (r: Option<StatusText>)
    ensures
        match step {
            InstallStep::RefuseBundled => r matches Some(t) && t@ == msg("extensions-status-bundled-replace"@),
            InstallStep::ConfirmReplacement => r matches Some(t) && t@ == msg(
                "extensions-status-confirm-replacement"@,
            ),
            InstallStep::Install => r is None,
        },
{
    match step {
        InstallStep::RefuseBundled => Some(message("extensions-status-bundled-replace")),
        InstallStep::ConfirmReplacement => Some(message("extensions-status-confirm-replacement")),
        InstallStep::Install => None,
    }
}

/// Confirm the replacement of extension `extension_id`: the waiting package
/// is handed out only when it is that extension's; otherwise it keeps
/// waiting.
pub fn confirm_install<P>(pending: &mut Option<(String, P)>, extension_id: &str) -> (r: Option<P>)
    ensures
        match *old(pending) {
            Some((id, p)) => if id@ == extension_id@ {
                r == Some(p) && *final(pending) is None
            } else {
                r is None && *final(pending) == *old(pending)
            },
            None => r is None && *final(pending) is None,
        },
{
    match pending.take() {
        Some((id, path)) => {
            if str_eq(id.as_str(), extension_id) {
                Some(path)
            } else {
                *pending = Some((id, path));
                None
            }
        },
        None => None,
    }
}

/// The status line after installing a package requested as `requested_id`
/// that turned out to be `installed_id`.
pub fn installed_status(installed_id: &str, requested_id: &str) -> (r: StatusText)
    ensures
        r@ == if installed_id@ == requested_id@ {
            msg("extensions-status-installed"@)
        } else {
            msg("extensions-status-installed-different-id"@)
        },
{
    if str_eq(installed_id, requested_id) {
        message("extensions-status-installed")
    } else {
        message("extensions-status-installed-different-id")
    }
}

/// Keep an edited setting value as an unsaved draft of its extension.
pub fn store_draft(
    drafts: &mut KeyedMap<String, KeyedMap<String, SettingValue>>,
    extension_id: &str,
    key: &str,
    value: SettingValue,
)
    requires
        old(drafts).wf(),
        forall|e: Seq<char>| #[trigger] old(drafts)@.contains_key(e) ==> old(drafts)@[e].wf(),
    ensures
        final(drafts).wf(),
        forall|e: Seq<char>| #[trigger] final(drafts)@.contains_key(e) ==> final(drafts)@[e].wf(),
        final(drafts)@.dom() == old(drafts)@.dom().insert(extension_id@),
        forall|e: Seq<char>| e != extension_id@ && #[trigger] old(drafts)@.contains_key(e) ==> final(drafts)@[e]
            == old(drafts)@[e],
        final(drafts)@[extension_id@]@ == if old(drafts)@.contains_key(extension_id@) {
            old(drafts)@[extension_id@]@.insert(key@, value)
        } else {
            Map::<Seq<char>, SettingValue>::empty().insert(key@, value)
        },
{
    let id = owned(extension_id);
    let mut draft = match drafts.take(&id) {
        Some(d) => d,
        None => KeyedMap::new(),
    };
    draft.insert(owned(key), value);
    drafts.insert(id, draft);
    assert(drafts@.dom() =~= old(drafts)@.dom().insert(extension_id@));
}

/// Save an extension's draft: each drafted value replaces the saved one.
pub fn apply_draft(settings: &mut ExtensionSettings, draft: &KeyedMap<String, SettingValue>)
    requires
        old(settings).values.wf(),
        draft.wf(),
    ensures
        final(settings).values.wf(),
        final(settings).trusted == old(settings).trusted,
        final(settings).subscribed_triggers == old(settings).subscribed_triggers,
        setting_views(final(settings).values@) == setting_views(old(settings).values@).union_prefer_right(
            setting_views(draft@),
        ),
{
    let entries = draft.entries();
    let ghost start = setting_views(settings.values@);
    for i in 0..entries.len()
        invariant
            settings.values.wf(),
            settings.trusted == old(settings).trusted,
            settings.subscribed_triggers == old(settings).subscribed_triggers,
            start == setting_views(old(settings).values@),
            entries_map(entries@) == draft@,
            setting_views(settings.values@) == start.union_prefer_right(
                setting_views(entries_map(entries@.take(i as int))),
            ),
    {
        let ghost before = setting_views(settings.values@);
        let (k, v) = (&entries[i].0, &entries[i].1);
        assert(entries@.take(i + 1).drop_last() =~= entries@.take(i as int));
        assert(entries@.take(i + 1).last() == entries@[i as int]);
        let ghost raw_before = settings.values@;
        let copy = v.duplicate();
        let ghost cv = copy;
        settings.values.insert(k.clone(), copy);
        proof {
            let m_i = entries_map(entries@.take(i as int));
            assert(entries_map(entries@.take(i + 1)) == m_i.insert(k@, *v));
            assert(setting_views(m_i.insert(k@, *v)) =~= setting_views(m_i).insert(k@, v@));
            assert(settings.values@ == raw_before.insert(k@, cv));
            assert(setting_views(raw_before.insert(k@, cv)) =~= setting_views(raw_before).insert(k@, v@));
            assert(start.union_prefer_right(setting_views(m_i)).insert(k@, v@) =~= start.union_prefer_right(
                setting_views(m_i).insert(k@, v@),
            ));
        }
    }
    assert(entries@.take(entries@.len() as int) =~= entries@);
}


/// What started a recorded run.
pub enum RunTrigger {
    Manual,
    Schedule { trigger_id: String, event_type: String },
    Repository { trigger_id: String, event_type: String },
}

/// How a run history entry names what started it.
pub open spec fn spec_trigger_display(trigger: RunTrigger) -> StatusView {
    match trigger {
        RunTrigger::Manual => msg("extensions-history-trigger-manual"@),
        RunTrigger::Schedule { trigger_id, event_type } => StatusView::Message {
            key: "extensions-history-trigger-event"@,
            args: seq![("event_type"@, event_type@), ("trigger_id"@, trigger_id@)],
        },
        RunTrigger::Repository { trigger_id, event_type } => StatusView::Message {
            key: "extensions-history-trigger-event"@,
            args: seq![("event_type"@, event_type@), ("trigger_id"@, trigger_id@)],
        },
    }
}

fn event_trigger_text(trigger_id: &String, event_type: &String) -> (r: StatusText)
    ensures
        r@ == (StatusView::Message {
            key: "extensions-history-trigger-event"@,
            args: seq![("event_type"@, event_type@), ("trigger_id"@, trigger_id@)],
        }),
{
    let mut args: Vec<(String, String)> = Vec::new();
    args.push((owned("event_type"), event_type.clone()));
    args.push((owned("trigger_id"), trigger_id.clone()));
    assert(args@.map_values(|a: (String, String)| (a.0@, a.1@)) =~= seq![
        ("event_type"@, event_type@),
        ("trigger_id"@, trigger_id@),
    ]);
    StatusText::Message { key: owned("extensions-history-trigger-event"), args }
}

/// The text naming what started a run.
pub fn trigger_display(trigger: &RunTrigger) -> (r: StatusText)
    ensures
        r@ == spec_trigger_display(*trigger),
{
    match trigger {
        RunTrigger::Manual => message("extensions-history-trigger-manual"),
        RunTrigger::Schedule { trigger_id, event_type } => event_trigger_text(trigger_id, event_type),
        RunTrigger::Repository { trigger_id, event_type } => event_trigger_text(trigger_id, event_type),
    }
}

/// When a trigger next fires, as the detail page hints it: at the daily time
/// or every so many minutes that its setting holds (nothing when that setting
/// is missing or of another kind), or on each event for event triggers.
pub open spec fn spec_next_event_hint(
    event_type: Seq<char>,
    time_setting: Option<Seq<char>>,
    interval_setting: Option<Seq<char>>,
    values: Map<Seq<char>, SettingValue>,
) -> Option<StatusView> {
    if event_type == "schedule.daily"@ {
        match time_setting {
            Some(k) => if values.contains_key(k) {
                match values[k] {
                    SettingValue::Time(t) => Some(msg1("extensions-daily-at"@, "time"@, t@)),
                    _ => None,
                }
            } else {
                None
            },
            None => None,
        }
    } else if event_type == "schedule.interval"@ {
        match interval_setting {
            Some(k) => if values.contains_key(k) {
                match values[k] {
                    SettingValue::Integer(m) => Some(
                        msg1("extensions-every-minutes"@, "minutes"@, signed_decimal(m as int)),
                    ),
                    _ => None,
                }
            } else {
                None
            },
            None => None,
        }
    } else {
        Some(msg("extensions-on-event"@))
    }
}

fn setting_lookup<'a>(settings: &'a ExtensionSettings, key: Option<&str>) -> (r: Option<&'a SettingValue>)
    requires
        settings.values.wf(),
    ensures
        match key {
            Some(k) => match r {
                Some(v) => settings.values@.contains_key(k@) && *v == settings.values@[k@],
                None => !settings.values@.contains_key(k@),
            },
            None => r is None,
        },
{
    match key {
        Some(k) => settings.values.get(&owned(k)),
        None => None,
    }
}

/// The hint of when a trigger of kind `event_type` next fires, given the
/// names of its time and interval settings and the extension's settings.
pub fn next_event_hint(
    event_type: &str,
    time_setting: Option<&str>,
    interval_setting: Option<&str>,
    settings: &ExtensionSettings,
) -> (r: Option<StatusText>)
    requires
        settings.values.wf(),
    ensures
        match r {
            Some(t) => spec_next_event_hint(
                event_type@,
                crate::text::opt_str_view(time_setting),
                crate::text::opt_str_view(interval_setting),
                settings.values@,
            ) == Some(t@),
            None => spec_next_event_hint(
                event_type@,
                crate::text::opt_str_view(time_setting),
                crate::text::opt_str_view(interval_setting),
                settings.values@,
            ) is None,
        },
{
    proof {
        reveal_strlit("schedule.daily");
        reveal_strlit("schedule.interval");
    }
    if str_eq(event_type, "schedule.daily") {
        match setting_lookup(settings, time_setting) {
            Some(SettingValue::Time(t)) => Some(message1("extensions-daily-at", "time", t.clone())),
            _ => None,
        }
    } else if str_eq(event_type, "schedule.interval") {
        match setting_lookup(settings, interval_setting) {
            Some(SettingValue::Integer(m)) => Some(
                message1("extensions-every-minutes", "minutes", i64_string(*m)),
            ),
            _ => None,
        }
    } else {
        Some(message("extensions-on-event"))
    }
}

/// The capability summary of an extension: the manual label when it has a
/// manual handler, the events label when it has event triggers, joined by
/// " · ".
pub open spec fn spec_capabilities_summary(
    has_manual_handler: bool,
    has_event_triggers: bool,
    manual_label: Seq<char>,
    events_label: Seq<char>,
) -> Seq<char> {
    if has_manual_handler && has_event_triggers {
        manual_label + " · "@ + events_label
    } else if has_manual_handler {
        manual_label
    } else if has_event_triggers {
        events_label
    } else {
        Seq::empty()
    }
}

/// The capability summary shown in the extension list and detail header.
pub fn capabilities_summary(
    has_manual_handler: bool,
    has_event_triggers: bool,
    manual_label: &str,
    events_label: &str,
) -> (r: String)
    ensures
        r@ == spec_capabilities_summary(has_manual_handler, has_event_triggers, manual_label@, events_label@),
{
    if has_manual_handler && has_event_triggers {
        let mut s = owned(manual_label);
        s.append(" · ");
        s.append(events_label);
        s
    } else if has_manual_handler {
        owned(manual_label)
    } else if has_event_triggers {
        owned(events_label)
    } else {
        String::new()
    }
}


/// The status line of a notification an extension posted: its title and
/// body, shown as they are.
pub fn notification_status(title: &str, body: &str) -> (r: StatusText)
    ensures
        r@ == StatusView::Raw(title@ + ": "@ + body@),
{
    let mut text = owned(title);
    text.append(": ");
    text.append(body);
    StatusText::Raw(text)
}


/// The status line of an extension whose run `run_id` is still active when
/// the management window opens.
pub fn active_run_status(run_id: u64) -> (r: StatusText)
    ensures
        r@ == msg1("extensions-status-active-run"@, "run_id"@, decimal(run_id as nat)),
{
    message1("extensions-status-active-run", "run_id", decimal_string(run_id))
}


/// Register an extension found on disk: one not configured before gets
/// default settings, trusted exactly when it is bundled with the
/// application (bundled packages are reviewed with it); the settings of a
/// known extension are kept. Whether it was new.
pub fn register_discovered(configured: &mut KeyedMap<String, ExtensionSettings>, extension_id: &str, bundled: bool) -> (added: bool)
    requires
        old(configured).wf(),
    ensures
        final(configured).wf(),
        added == !old(configured)@.contains_key(extension_id@),
        !added ==> final(configured)@ == old(configured)@,
        added ==> final(configured)@.dom() == old(configured)@.dom().insert(extension_id@),
        added ==> forall|k: Seq<char>|
            k != extension_id@ && #[trigger] old(configured)@.contains_key(k) ==> final(configured)@[k] == old(
                configured,
            )@[k],
        added ==> ({
            let s = final(configured)@[extension_id@];
            &&& s.trusted == bundled
            &&& s.subscribed_triggers.wf() && s.values.wf()
            &&& s.subscribed_triggers@ == Map::<Seq<char>, ()>::empty()
            &&& s.values@ == Map::<Seq<char>, SettingValue>::empty()
        }),
{
    let key = owned(extension_id);
    if configured.contains(&key) {
        return false;
    }
    let mut settings = default_settings();
    settings.trusted = bundled;
    configured.insert(key, settings);
    assert(configured@.dom() =~= old(configured)@.dom().insert(extension_id@));
    true
}


/// A package the workspace knows: its extension id and whether it ships
/// with the application.
pub struct KnownPackage {
    pub id: String,
    pub bundled: bool,
}

/// Whether extension `extension_id` may be uninstalled: not when a bundled
/// package carries that id.
pub fn uninstall_allowed(packages: &Vec<KnownPackage>, extension_id: &str) -> (r: bool)
    ensures
        r == !exists|i: int|
            0 <= i < packages@.len() && #[trigger] packages@[i].id@ == extension_id@ && packages@[i].bundled,
{
    for i in 0..packages.len()
        invariant
            forall|j: int| 0 <= j < i ==> !(#[trigger] packages@[j].id@ == extension_id@ && packages@[j].bundled),
    {
        if packages[i].bundled && str_eq(packages[i].id.as_str(), extension_id) {
            return false;
        }
    }
    true
}

/// After the package of `extension_id` was asked to be removed from disk
/// (`result`): on success its settings are forgotten and the status says it
/// was uninstalled; on failure nothing changes and the status is the error.
pub fn finish_uninstall(
    configured: &mut KeyedMap<String, ExtensionSettings>,
    extension_id: &str,
    result: Result<(), String>,
) -> (r: StatusText)
    requires
        old(configured).wf(),
    ensures
        final(configured).wf(),
        match result {
            Ok(()) => final(configured)@ == old(configured)@.remove(extension_id@) && r@ == msg(
                "extensions-status-uninstalled"@,
            ),
            Err(e) => final(configured)@ == old(configured)@ && r@ == StatusView::Raw(e@),
        },
{
    match result {
        Ok(()) => {
            configured.remove(&owned(extension_id));
            message("extensions-status-uninstalled")
        },
        Err(e) => StatusText::Raw(e),
    }
}

} // verus!
