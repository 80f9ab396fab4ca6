//! The state behind the extensions management page: installed extensions
//! with their settings and run history, the selected extension, status
//! lines, per-setting errors and pending trust confirmations.
use vstd::prelude::*;
use crate::keyed::{KeyedMap, MapKey, key_set};
use crate::text::{bool_string, bool_text, i64_string, owned, parse_i64, parse_i64_exec, signed_decimal, str_eq, str_trim, trim};

verus! {

/// A value of one extension setting.
#[derive(Debug, PartialEq, Eq)]
pub enum SettingValue {
    String(String),
    Integer(i64),
    Boolean(bool),
    Time(String),
    Select(String),
}

/// Mathematical form of a setting value.
pub enum SettingView {
    String(Seq<char>),
    Integer(i64),
    Boolean(bool),
    Time(Seq<char>),
    Select(Seq<char>),
}

impl View for SettingValue {
    type V = SettingView;

    open spec fn view(&self) -> SettingView {
        match self {
            SettingValue::String(s) => SettingView::String(s@),
            SettingValue::Integer(i) => SettingView::Integer(*i),
            SettingValue::Boolean(b) => SettingView::Boolean(*b),
            SettingValue::Time(s) => SettingView::Time(s@),
            SettingValue::Select(s) => SettingView::Select(s@),
        }
    }
}

/// The views of a map of setting values.
pub open spec fn setting_views(m: Map<Seq<char>, SettingValue>) -> Map<Seq<char>, SettingView> {
    m.map_values(|v: SettingValue| v@)
}

impl SettingValue {
    /// An equal copy of this value.
    pub fn duplicate(&self) -> (r: SettingValue)
        ensures
            r@ == self@,
    {
        match self {
            SettingValue::String(s) => SettingValue::String(s.clone()),
            SettingValue::Integer(i) => SettingValue::Integer(*i),
            SettingValue::Boolean(b) => SettingValue::Boolean(*b),
            SettingValue::Time(s) => SettingValue::Time(s.clone()),
            SettingValue::Select(s) => SettingValue::Select(s.clone()),
        }
    }
}

/// How a setting value is shown: text as it is, numbers in decimal, and
/// `true` or `false`.
pub open spec fn spec_setting_display(value: SettingView) -> Seq<char> {
    match value {
        SettingView::String(s) => s,
        SettingView::Time(s) => s,
        SettingView::Select(s) => s,
        SettingView::Integer(i) => signed_decimal(i as int),
        SettingView::Boolean(b) => bool_text(b),
    }
}

/// The text shown for a setting value.
pub fn setting_display(value: &SettingValue) -> (r: String)
    ensures
        r@ == spec_setting_display(value@),
{
    match value {
        SettingValue::String(s) => s.clone(),
        SettingValue::Time(s) => s.clone(),
        SettingValue::Select(s) => s.clone(),
        SettingValue::Integer(i) => i64_string(*i),
        SettingValue::Boolean(b) => bool_string(*b),
    }
}

/// The value of a setting edited as text: the text without surrounding
/// white space, as a time for a time setting, as an integer for an integer
/// setting when it reads as one (else kept as text), as text otherwise.
pub open spec fn spec_edited_setting_value(text: Seq<char>, is_time: bool, is_integer: bool) -> SettingView {
    let value = trim(text);
    if is_time {
        SettingView::Time(value)
    } else if is_integer {
        match parse_i64(value) {
            Some(i) => SettingView::Integer(i),
            None => SettingView::String(value),
        }
    } else {
        SettingView::String(value)
    }
}

/// The value of a setting edited as text.
pub fn edited_setting_value(text: &str, is_time: bool, is_integer: bool) -> (r: SettingValue)
    ensures
        r@ == spec_edited_setting_value(text@, is_time, is_integer),
{
    let value = str_trim(text);
    if is_time {
        SettingValue::Time(owned(value))
    } else if is_integer {
        match parse_i64_exec(value) {
            Some(i) => SettingValue::Integer(i),
            None => SettingValue::String(owned(value)),
        }
    } else {
        SettingValue::String(owned(value))
    }
}

/// What the page asks the workspace to do.
pub enum ExtensionsPanelEvent {
    Uninstall(String),
    RunNow(String),
    Cancel(String),
    SaveSettings(String),
    SubscriptionChanged { extension_id: String, trigger_id: String, subscribed: bool },
    TrustedChanged { extension_id: String, trusted: bool },
    SettingChanged { extension_id: String, key: String, value: SettingValue },
}

/// An extension's user settings.
pub struct ExtensionSettings {
    pub trusted: bool,
    /// The triggers the user subscribed to (a set: values are unused).
    pub subscribed_triggers: KeyedMap<String, ()>,
    pub values: KeyedMap<String, SettingValue>,
}

/// One installed extension on the page, with its run history of records `R`.
pub struct ExtensionRow<R> {
    pub id: String,
    pub settings: ExtensionSettings,
    pub history: Vec<R>,
}

/// Mathematical form of a row.
pub struct RowView<R> {
    pub id: Seq<char>,
    pub trusted: bool,
    pub subscribed: Set<Seq<char>>,
    pub values: Map<Seq<char>, SettingValue>,
    pub history: Seq<R>,
}

impl<R> ExtensionRow<R> {
    pub open spec fn row_view(&self) -> RowView<R> {
        RowView {
            id: self.id@,
            trusted: self.settings.trusted,
            subscribed: self.settings.subscribed_triggers@.dom(),
            values: self.settings.values@,
            history: self.history@,
        }
    }

    pub open spec fn row_wf(&self) -> bool {
        self.settings.subscribed_triggers.wf() && self.settings.values.wf()
    }
}

pub open spec fn row_views<R>(rows: Seq<ExtensionRow<R>>) -> Seq<RowView<R>> {
    rows.map_values(|r: ExtensionRow<R>| r.row_view())
}

/// Whether position `i` holds the first row of extension `id`.
pub open spec fn is_first_row<R>(rows: Seq<RowView<R>>, id: Seq<char>, i: int) -> bool {
    &&& 0 <= i < rows.len()
    &&& rows[i].id == id
    &&& forall|j: int| 0 <= j < i ==> #[trigger] rows[j].id != id
}

/// Whether some row belongs to extension `id`.
pub open spec fn has_row<R>(rows: Seq<RowView<R>>, id: Seq<char>) -> bool {
    exists|i: int| 0 <= i < rows.len() && #[trigger] rows[i].id == id
}

/// The position of the first row of extension `id`.
pub open spec fn first_row<R>(rows: Seq<RowView<R>>, id: Seq<char>) -> int {
    choose|i: int| is_first_row(rows, id, i)
}

proof fn lemma_first_row<R>(rows: Seq<RowView<R>>, id: Seq<char>, i: int)
    requires
        is_first_row(rows, id, i),
    ensures
        first_row(rows, id) == i,
        has_row(rows, id),
{
    let k = first_row(rows, id);
    assert(is_first_row(rows, id, k));
    if k < i {
        assert(rows[k].id != id);
    } else if i < k {
        assert(rows[i].id != id);
    }
}

/// Mathematical form of the page state.
pub struct PanelView<R> {
    pub rows: Seq<RowView<R>>,
    pub selected: Option<Seq<char>>,
    pub statuses: Map<Seq<char>, Seq<char>>,
    pub setting_errors: Map<(Seq<char>, Seq<char>), Seq<char>>,
    pub trust_confirmations: Set<Seq<char>>,
    pub history_limit: usize,
}

/// The state of the extensions page.
pub struct ExtensionsPanel<R> {
    rows: Vec<ExtensionRow<R>>,
    selected_extension: Option<String>,
    statuses: KeyedMap<String, String>,
    setting_errors: KeyedMap<(String, String), String>,
    trust_confirmations: KeyedMap<String, ()>,
    history_limit: usize,
}

pub open spec fn opt_view(o: Option<String>) -> Option<Seq<char>> {
    crate::text::opt_view(o)
}

pub open spec fn string_values(m: Map<Seq<char>, String>) -> Map<Seq<char>, Seq<char>> {
    m.map_values(|s: String| s@)
}

pub open spec fn error_values(m: Map<(Seq<char>, Seq<char>), String>) -> Map<(Seq<char>, Seq<char>), Seq<char>> {
    m.map_values(|s: String| s@)
}

/// The id of the first row, if any.
pub open spec fn first_id<R>(rows: Seq<RowView<R>>) -> Option<Seq<char>> {
    if rows.len() > 0 {
        Some(rows[0].id)
    } else {
        None
    }
}

/// The history after one more record, keeping only the newest `limit`.
pub open spec fn capped_history<R>(history: Seq<R>, record: R, limit: usize) -> Seq<R> {
    let all = history.push(record);
    if all.len() > limit {
        all.subrange(all.len() - limit, all.len() as int)
    } else {
        all
    }
}

impl<R> ExtensionsPanel<R> {
    pub closed spec fn view(&self) -> PanelView<R> {
        PanelView {
            rows: row_views(self.rows@),
            selected: opt_view(self.selected_extension),
            statuses: string_values(self.statuses@),
            setting_errors: error_values(self.setting_errors@),
            trust_confirmations: self.trust_confirmations@.dom(),
            history_limit: self.history_limit,
        }
    }

    pub closed spec fn wf(&self) -> bool {
        &&& forall|i: int| 0 <= i < self.rows@.len() ==> (#[trigger] self.rows@[i]).row_wf()
        &&& self.statuses.wf()
        &&& self.setting_errors.wf()
        &&& self.trust_confirmations.wf()
    }

    /// A page for `rows`, showing the first extension; at most
    /// `history_limit` run records are kept per extension.
    pub fn new(rows: Vec<ExtensionRow<R>>, history_limit: usize) -> (r: Self)
        requires
            forall|i: int| 0 <= i < rows@.len() ==> (#[trigger] rows@[i]).row_wf(),
        ensures
            r.wf(),
            r@.rows == row_views(rows@),
            r@.selected == first_id(row_views(rows@)),
            r@.statuses == Map::<Seq<char>, Seq<char>>::empty(),
            r@.setting_errors == Map::<(Seq<char>, Seq<char>), Seq<char>>::empty(),
            r@.trust_confirmations == Set::<Seq<char>>::empty(),
            r@.history_limit == history_limit,
    {
        let selected_extension = if rows.len() > 0 {
            Some(rows[0].id.clone())
        } else {
            None
        };
        let r = ExtensionsPanel {
            rows,
            selected_extension,
            statuses: KeyedMap::new(),
            setting_errors: KeyedMap::new(),
            trust_confirmations: KeyedMap::new(),
            history_limit,
        };
        assert(string_values(r.statuses@) =~= Map::<Seq<char>, Seq<char>>::empty());
        assert(error_values(r.setting_errors@) =~= Map::<(Seq<char>, Seq<char>), Seq<char>>::empty());
        assert(r.trust_confirmations@.dom() =~= Set::<Seq<char>>::empty());
        r
    }

    /// The rows, in order.
    pub fn rows(&self) -> (r: &Vec<ExtensionRow<R>>)
        ensures
            row_views(r@) == self@.rows,
    {
        &self.rows
    }

    /// The selected extension.
    pub fn selected_extension(&self) -> (r: &Option<String>)
        ensures
            opt_view(*r) == self@.selected,
    {
        &self.selected_extension
    }

    fn find_row(&self, id: &str) -> (r: Option<usize>)
        ensures
            match r {
                Some(i) => is_first_row(row_views(self.rows@), id@, i as int),
                None => !has_row(row_views(self.rows@), id@),
            },
    {
        let ghost rv = row_views(self.rows@);
        for i in 0..self.rows.len()
            invariant
                rv == row_views(self.rows@),
                forall|j: int| 0 <= j < i ==> #[trigger] rv[j].id != id@,
        {
            if str_eq(self.rows[i].id.as_str(), id) {
                return Some(i);
            }
        }
        None
    }
}

impl<R> ExtensionsPanel<R> {
    /// Select extension `extension_id` if it is on the page.
    pub fn select_extension(&mut self, extension_id: String)
        requires
            old(self).wf(),
        ensures
            final(self).wf(),
            final(self)@ == (PanelView {
                selected: if has_row(old(self)@.rows, extension_id@) {
                    Some(extension_id@)
                } else {
                    old(self)@.selected
                },
                ..old(self)@
            }),
    {
        if self.find_row(extension_id.as_str()).is_some() {
            self.selected_extension = Some(extension_id);
        }
    }

    /// Show `status` as extension `extension_id`'s status line.
    pub fn set_status(&mut self, extension_id: &str, status: String)
        requires
            old(self).wf(),
        ensures
            final(self).wf(),
            final(self)@ == (PanelView {
                statuses: old(self)@.statuses.insert(extension_id@, status@),
                ..old(self)@
            }),
    {
        self.statuses.insert(crate::text::owned(extension_id), status);
        assert(string_values(self.statuses@) =~= old(self)@.statuses.insert(extension_id@, status@));
    }

    /// Show `error` under setting `key` of extension `extension_id`.
    pub fn set_setting_error(&mut self, extension_id: &str, key: &str, error: String)
        requires
            old(self).wf(),
        ensures
            final(self).wf(),
            final(self)@ == (PanelView {
                setting_errors: old(self)@.setting_errors.insert((extension_id@, key@), error@),
                ..old(self)@
            }),
    {
        self.setting_errors.insert((crate::text::owned(extension_id), crate::text::owned(key)), error);
        assert(error_values(self.setting_errors@) =~= old(self)@.setting_errors.insert(
            (extension_id@, key@),
            error@,
        ));
    }

    /// Clear the error under setting `key` of extension `extension_id`;
    /// whether there was one (and the page must be redrawn).
    pub fn clear_setting_error(&mut self, extension_id: &str, key: &str) -> (r: bool)
        requires
            old(self).wf(),
        ensures
            final(self).wf(),
            r == old(self)@.setting_errors.contains_key((extension_id@, key@)),
            final(self)@ == (PanelView {
                setting_errors: old(self)@.setting_errors.remove((extension_id@, key@)),
                ..old(self)@
            }),
    {
        let k = (crate::text::owned(extension_id), crate::text::owned(key));
        let r = self.setting_errors.remove(&k);
        assert(error_values(self.setting_errors@) =~= old(self)@.setting_errors.remove((extension_id@, key@)));
        r
    }

    /// Record a new value of setting `key` of extension `extension_id`.
    pub fn update_setting(&mut self, extension_id: &str, key: &str, value: SettingValue)
        requires
            old(self).wf(),
        ensures
            final(self).wf(),
            final(self)@ == (PanelView {
                rows: if has_row(old(self)@.rows, extension_id@) {
                    old(self)@.rows.update(
                        first_row(old(self)@.rows, extension_id@),
                        RowView {
                            values: old(self)@.rows[first_row(old(self)@.rows, extension_id@)].values.insert(
                                key@,
                                value,
                            ),
                            ..old(self)@.rows[first_row(old(self)@.rows, extension_id@)]
                        },
                    )
                } else {
                    old(self)@.rows
                },
                ..old(self)@
            }),
    {
        let ghost v = value;
        match self.find_row(extension_id) {
            Some(i) => {
                proof {
                    lemma_first_row(row_views(self.rows@), extension_id@, i as int);
                }
                let mut row = self.rows.remove(i);
                assert(row.row_view() == old(self)@.rows[i as int]);
                assert(old(self).rows@[i as int].row_wf());
                row.settings.values.insert(crate::text::owned(key), value);
                self.rows.insert(i, row);
                proof {
                    let after = self.rows@;
                    assert forall|j: int| 0 <= j < after.len() implies (#[trigger] after[j]).row_wf() by {
                        if j != i {
                            assert(after[j] == old(self).rows@[j]);
                        }
                    }
                }
                assert(row_views(self.rows@) =~= old(self)@.rows.update(
                    i as int,
                    RowView { values: old(self)@.rows[i as int].values.insert(key@, v), ..old(self)@.rows[i as int] },
                ));
            },
            None => {},
        }
    }
}

/// A row after its trust changed: revoking trust drops every subscription.
pub open spec fn with_trust<R>(row: RowView<R>, trusted: bool) -> RowView<R> {
    RowView {
        trusted,
        subscribed: if trusted {
            row.subscribed
        } else {
            Set::empty()
        },
        ..row
    }
}

/// A row after one subscription changed.
pub open spec fn with_subscription<R>(row: RowView<R>, trigger_id: Seq<char>, subscribed: bool) -> RowView<R> {
    RowView {
        subscribed: if subscribed {
            row.subscribed.insert(trigger_id)
        } else {
            row.subscribed.remove(trigger_id)
        },
        ..row
    }
}

/// A row after one more run record.
pub open spec fn with_record<R>(row: RowView<R>, record: R, limit: usize) -> RowView<R> {
    RowView { history: capped_history(row.history, record, limit), ..row }
}

/// The rows after changing the first row of `id`, if there is one.
pub open spec fn change_first<R>(rows: Seq<RowView<R>>, id: Seq<char>, changed: RowView<R>) -> Seq<RowView<R>> {
    if has_row(rows, id) {
        rows.update(first_row(rows, id), changed)
    } else {
        rows
    }
}

/// The first row of `id` (meaningful when there is one).
pub open spec fn row_of<R>(rows: Seq<RowView<R>>, id: Seq<char>) -> RowView<R> {
    rows[first_row(rows, id)]
}

/// A click on an extension's trust button: the page afterwards and the trust
/// change requested, if any.
pub open spec fn spec_trust_click<R>(v: PanelView<R>, id: Seq<char>) -> (PanelView<R>, Option<bool>) {
    if has_row(v.rows, id) && row_of(v.rows, id).trusted {
        (v, Some(false))
    } else if !v.trust_confirmations.contains(id) {
        (PanelView { trust_confirmations: v.trust_confirmations.insert(id), ..v }, None)
    } else {
        (PanelView { trust_confirmations: v.trust_confirmations.remove(id), ..v }, Some(true))
    }
}

/// Granting trust takes two clicks: on an untrusted extension without a
/// pending confirmation, the first click only asks for confirmation and the
/// second requests trust, leaving the page as it was.
pub proof fn law_trust_needs_confirmation<R>(v: PanelView<R>, id: Seq<char>)
    requires
        !(has_row(v.rows, id) && row_of(v.rows, id).trusted),
        !v.trust_confirmations.contains(id),
    ensures
        spec_trust_click(v, id).1 == None::<bool>,
        spec_trust_click(spec_trust_click(v, id).0, id).1 == Some(true),
        spec_trust_click(spec_trust_click(v, id).0, id).0 == v,
{
    let v1 = spec_trust_click(v, id).0;
    assert(v1.trust_confirmations.remove(id) =~= v.trust_confirmations);
}

/// Revoking trust takes one click and changes nothing on the page.
pub proof fn law_revoking_trust_is_immediate<R>(v: PanelView<R>, id: Seq<char>)
    requires
        has_row(v.rows, id) && row_of(v.rows, id).trusted,
    ensures
        spec_trust_click(v, id) == (v, Some(false)),
{
}

impl<R> ExtensionsPanel<R> {
    /// Record whether extension `extension_id` is trusted; revoking trust
    /// drops its subscriptions.
    pub fn update_trust(&mut self, extension_id: &str, trusted: bool)
        requires
            old(self).wf(),
        ensures
            final(self).wf(),
            final(self)@ == (PanelView {
                rows: change_first(
                    old(self)@.rows,
                    extension_id@,
                    with_trust(row_of(old(self)@.rows, extension_id@), trusted),
                ),
                ..old(self)@
            }),
    {
        match self.find_row(extension_id) {
            Some(i) => {
                proof {
                    lemma_first_row(row_views(self.rows@), extension_id@, i as int);
                }
                let mut row = self.rows.remove(i);
                assert(row.row_view() == old(self)@.rows[i as int]);
                assert(old(self).rows@[i as int].row_wf());
                row.settings.trusted = trusted;
                if !trusted {
                    row.settings.subscribed_triggers.clear();
                    assert(row.settings.subscribed_triggers@.dom() =~= Set::<Seq<char>>::empty());
                }
                self.rows.insert(i, row);
                proof {
                    let after = self.rows@;
                    assert forall|j: int| 0 <= j < after.len() implies (#[trigger] after[j]).row_wf() by {
                        if j != i {
                            assert(after[j] == old(self).rows@[j]);
                        }
                    }
                }
                assert(row_views(self.rows@) =~= old(self)@.rows.update(
                    i as int,
                    with_trust(old(self)@.rows[i as int], trusted),
                ));
            },
            None => {},
        }
    }

    /// Record whether extension `extension_id` is subscribed to trigger
    /// `trigger_id`.
    pub fn update_subscription(&mut self, extension_id: &str, trigger_id: &str, subscribed: bool)
        requires
            old(self).wf(),
        ensures
            final(self).wf(),
            final(self)@ == (PanelView {
                rows: change_first(
                    old(self)@.rows,
                    extension_id@,
                    with_subscription(row_of(old(self)@.rows, extension_id@), trigger_id@, subscribed),
                ),
                ..old(self)@
            }),
    {
        match self.find_row(extension_id) {
            Some(i) => {
                proof {
                    lemma_first_row(row_views(self.rows@), extension_id@, i as int);
                }
                let mut row = self.rows.remove(i);
                assert(row.row_view() == old(self)@.rows[i as int]);
                assert(old(self).rows@[i as int].row_wf());
                let ghost before = row.settings.subscribed_triggers@;
                if subscribed {
                    row.settings.subscribed_triggers.insert(crate::text::owned(trigger_id), ());
                    assert(row.settings.subscribed_triggers@.dom() =~= before.dom().insert(trigger_id@));
                } else {
                    row.settings.subscribed_triggers.remove(&crate::text::owned(trigger_id));
                    assert(row.settings.subscribed_triggers@.dom() =~= before.dom().remove(trigger_id@));
                }
                self.rows.insert(i, row);
                proof {
                    let after = self.rows@;
                    assert forall|j: int| 0 <= j < after.len() implies (#[trigger] after[j]).row_wf() by {
                        if j != i {
                            assert(after[j] == old(self).rows@[j]);
                        }
                    }
                }
                assert(row_views(self.rows@) =~= old(self)@.rows.update(
                    i as int,
                    with_subscription(old(self)@.rows[i as int], trigger_id@, subscribed),
                ));
            },
            None => {},
        }
    }

    /// Add a finished run to extension `extension_id`'s history, keeping
    /// only the newest records up to the limit.
    pub fn append_history(&mut self, extension_id: &str, record: R)
        requires
            old(self).wf(),
        ensures
            final(self).wf(),
            final(self)@ == (PanelView {
                rows: change_first(
                    old(self)@.rows,
                    extension_id@,
                    with_record(row_of(old(self)@.rows, extension_id@), record, old(self)@.history_limit),
                ),
                ..old(self)@
            }),
    {
        let ghost rec = record;
        match self.find_row(extension_id) {
            Some(i) => {
                proof {
                    lemma_first_row(row_views(self.rows@), extension_id@, i as int);
                }
                let mut row = self.rows.remove(i);
                assert(row.row_view() == old(self)@.rows[i as int]);
                assert(old(self).rows@[i as int].row_wf());
                row.history.push(record);
                if row.history.len() > self.history_limit {
                    let keep_from = row.history.len() - self.history_limit;
                    let tail = row.history.split_off(keep_from);
                    row.history = tail;
                }
                self.rows.insert(i, row);
                proof {
                    let after = self.rows@;
                    assert forall|j: int| 0 <= j < after.len() implies (#[trigger] after[j]).row_wf() by {
                        if j != i {
                            assert(after[j] == old(self).rows@[j]);
                        }
                    }
                }
                assert(row_views(self.rows@) =~= old(self)@.rows.update(
                    i as int,
                    with_record(old(self)@.rows[i as int], rec, self.history_limit),
                ));
            },
            None => {},
        }
    }

    /// A click on extension `extension_id`'s trust button. Revoking trust
    /// takes one click; granting it takes two: the first asks for
    /// confirmation, the second grants.
    pub fn handle_trust_click(&mut self, extension_id: String) -> (r: Option<ExtensionsPanelEvent>)
        requires
            old(self).wf(),
        ensures
            final(self).wf(),
            final(self)@ == spec_trust_click(old(self)@, extension_id@).0,
            match spec_trust_click(old(self)@, extension_id@).1 {
                Some(t) => r matches Some(ExtensionsPanelEvent::TrustedChanged { extension_id: e, trusted })
                    && e@ == extension_id@ && trusted == t,
                None => r is None,
            },
    {
        let trusted = match self.find_row(extension_id.as_str()) {
            Some(i) => {
                proof {
                    lemma_first_row(row_views(self.rows@), extension_id@, i as int);
                }
                self.rows[i].settings.trusted
            },
            None => false,
        };
        if trusted {
            return Some(ExtensionsPanelEvent::TrustedChanged { extension_id, trusted: false });
        }
        if !self.trust_confirmations.contains(&extension_id) {
            let ghost before = self.trust_confirmations@;
            self.trust_confirmations.insert(extension_id.clone(), ());
            assert(self.trust_confirmations@.dom() =~= before.dom().insert(extension_id@));
            None
        } else {
            let ghost before = self.trust_confirmations@;
            self.trust_confirmations.remove(&extension_id);
            assert(self.trust_confirmations@.dom() =~= before.dom().remove(extension_id@));
            Some(ExtensionsPanelEvent::TrustedChanged { extension_id, trusted: true })
        }
    }
}

/// The extensions that have a row.
pub open spec fn row_ids<R>(rows: Seq<RowView<R>>) -> Set<Seq<char>> {
    Set::new(|k: Seq<char>| has_row(rows, k))
}

fn rows_have<R>(rows: &Vec<ExtensionRow<R>>, id: &str) -> (r: bool)
    ensures
        r == has_row(row_views(rows@), id@),
{
    let ghost rv = row_views(rows@);
    for i in 0..rows.len()
        invariant
            rv == row_views(rows@),
            forall|j: int| 0 <= j < i ==> #[trigger] rv[j].id != id@,
    {
        if str_eq(rows[i].id.as_str(), id) {
            assert(rv[i as int].id == id@);
            return true;
        }
    }
    false
}

impl<R> ExtensionsPanel<R> {
    /// Show a new set of installed extensions: the selection stays if its
    /// extension is still installed (else the first one is selected), status
    /// lines and pending confirmations of removed extensions go, and setting
    /// errors are cleared.
    pub fn replace_definitions(&mut self, rows: Vec<ExtensionRow<R>>)
        requires
            old(self).wf(),
            forall|i: int| 0 <= i < rows@.len() ==> (#[trigger] rows@[i]).row_wf(),
        ensures
            final(self).wf(),
            final(self)@ == (PanelView {
                rows: row_views(rows@),
                selected: match old(self)@.selected {
                    Some(id) => if has_row(row_views(rows@), id) {
                        Some(id)
                    } else {
                        first_id(row_views(rows@))
                    },
                    None => first_id(row_views(rows@)),
                },
                statuses: old(self)@.statuses.restrict(row_ids(row_views(rows@))),
                setting_errors: Map::empty(),
                trust_confirmations: old(self)@.trust_confirmations.intersect(row_ids(row_views(rows@))),
                ..old(self)@
            }),
    {
        let ghost rv = row_views(rows@);
        let mut ids: Vec<String> = Vec::new();
        for i in 0..rows.len()
            invariant
                rv == row_views(rows@),
                ids@.len() == i,
                forall|j: int| 0 <= j < i ==> (#[trigger] ids@[j])@ == rv[j].id,
        {
            ids.push(rows[i].id.clone());
        }
        assert forall|k: Seq<char>| #[trigger] key_set(ids@).contains(k) <==> row_ids(rv).contains(k) by {
            if key_set(ids@).contains(k) {
                let j = choose|j: int| 0 <= j < ids@.len() && #[trigger] ids@[j].key_view() == k;
                assert(rv[j].id == k);
            }
            if row_ids(rv).contains(k) {
                let j = choose|j: int| 0 <= j < rv.len() && #[trigger] rv[j].id == k;
                assert(ids@[j].key_view() == k);
            }
        }
        assert(key_set(ids@) =~= row_ids(rv));
        let keep = match &self.selected_extension {
            Some(id) => rows_have(&rows, id.as_str()),
            None => false,
        };
        if !keep {
            self.selected_extension = if rows.len() > 0 {
                Some(rows[0].id.clone())
            } else {
                None
            };
        }
        self.rows = rows;
        let ghost st = self.statuses@;
        self.statuses.retain_keys(&ids);
        assert(string_values(self.statuses@) =~= string_values(st).restrict(row_ids(rv)));
        self.setting_errors.clear();
        assert(error_values(self.setting_errors@) =~= Map::<(Seq<char>, Seq<char>), Seq<char>>::empty());
        let ghost tc = self.trust_confirmations@;
        self.trust_confirmations.retain_keys(&ids);
        assert(self.trust_confirmations@.dom() =~= tc.dom().intersect(row_ids(rv)));
    }
}

} // verus!
