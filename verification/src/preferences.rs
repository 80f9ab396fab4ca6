//! Workspace preferences: repository keys, font choices, Agent launch
//! overrides, custom Agent profiles, and what the application was asked to
//! open at start.
use vstd::prelude::*;
use crate::text::{char_is_control, char_is_ws, chars_of, is_control, opt_view, owned, str_eq, str_trim, trim, trim_end, views};
use crate::text::{lex_lt, lemma_lex_irreflexive, lemma_lex_total, lemma_lex_transitive, str_lt};
use crate::keymap::{join, join_strings};
use crate::extension_actions::{StatusText, StatusView, message, message1, msg, msg1};

verus! {

/// Open requests handed to the application at start: repository paths from
/// the command line, and the listener `S` for requests forwarded by later
/// launches.
pub struct PendingOpen<S> {
    pub startup_paths: Vec<String>,
    pub instance_server: Option<S>,
}

impl<S> PendingOpen<S> {
    /// Whether there is nothing to open and nothing to listen to.
    pub fn is_empty(&self) -> (r: bool)
        ensures
            r == (self.startup_paths@.len() == 0 && self.instance_server is None),
    {
        self.startup_paths.len() == 0 && self.instance_server.is_none()
    }
}

/// The ASCII lower-case form of a character.
pub open spec fn ascii_lower(c: char) -> char {
    if 'A' <= c && c <= 'Z' {
        ((c as u32) + 32) as char
    } else {
        c
    }
}

/// `str::to_ascii_lowercase`: a copy of `s` with ASCII letters `A`–`Z`
/// mapped to `a`–`z` and every other character unchanged, as the standard
/// library documents it.
#[verifier::external_body]
fn ascii_lowercase(s: &str) -> (r: String)
    ensures
        r@ == s@.map_values(|c: char| ascii_lower(c)),
{
    s.to_ascii_lowercase()
}

/// A canonical path in its plain form: a Windows verbatim drive path
/// (`\\?\C:\...`, as canonicalization returns it) loses its `\\?\` prefix;
/// any other path is kept.
pub open spec fn spec_plain_path(path: Seq<char>) -> Seq<char> {
    if path.len() >= 6 && path[0] == '\\' && path[1] == '\\' && path[2] == '?' && path[3] == '\\' && (('A'
        <= path[4] && path[4] <= 'Z') || ('a' <= path[4] && path[4] <= 'z')) && path[5] == ':' {
        path.skip(4)
    } else {
        path
    }
}

/// The plain form of a canonical path.
pub fn plain_path(path: &str) -> (r: String)
    ensures
        r@ == spec_plain_path(path@),
{
    let x = chars_of(path);
    let n = x.len();
    if n >= 6 && x[0] == '\\' && x[1] == '\\' && x[2] == '?' && x[3] == '\\' && (('A' <= x[4] && x[4] <= 'Z') || (
    'a' <= x[4] && x[4] <= 'z')) && x[5] == ':' {
        let r = owned(path.substring_char(4, n));
        assert(path@.subrange(4, n as int) =~= path@.skip(4));
        r
    } else {
        owned(path)
    }
}

/// The key under which a repository tab is known: its normalized path,
/// folded to ASCII lower case on a file system that ignores case.
pub fn repo_key(normalized_path: &str, case_insensitive: bool) -> (r: String)
    ensures
        r@ == if case_insensitive {
            normalized_path@.map_values(|c: char| ascii_lower(c))
        } else {
            normalized_path@
        },
{
    if case_insensitive {
        ascii_lowercase(normalized_path)
    } else {
        owned(normalized_path)
    }
}

/// Each name sorts strictly before every later one: sorted, and no name twice.
pub open spec fn strictly_sorted(s: Seq<Seq<char>>) -> bool {
    forall|i: int, j: int| 0 <= i < j < s.len() ==> lex_lt(#[trigger] s[i], #[trigger] s[j])
}

/// A family name offered to the user: one that does not start with a dot
/// (such names are private to the platform).
pub open spec fn offered_family(name: Seq<char>) -> bool {
    !(name.len() > 0 && name[0] == '.')
}

fn starts_with_dot(name: &str) -> (r: bool)
    ensures
        r == !offered_family(name@),
{
    let x = chars_of(name);
    x.len() > 0 && x[0] == '.'
}

/// Insert `name` into a strictly sorted list unless it is already there.
fn insert_sorted(out: &mut Vec<String>, name: String)
    requires
        strictly_sorted(views(old(out)@)),
    ensures
        strictly_sorted(views(final(out)@)),
        forall|s: Seq<char>| #[trigger] views(final(out)@).contains(s) <==> (views(old(out)@).contains(s) || s == name@),
{
    let ghost before = views(out@);
    let mut p: usize = 0;
    while p < out.len() && str_lt(out[p].as_str(), name.as_str())
        invariant
            p <= out@.len(),
            views(out@) == before,
            forall|k: int| 0 <= k < p ==> lex_lt(#[trigger] out@[k]@, name@),
        decreases out@.len() - p,
    {
        p += 1;
    }
    if p < out.len() && out[p].eq(&name) {
        proof {
            assert(before[p as int] == name@);
        }
        return;
    }
    proof {
        if p < out@.len() {
            assert(before[p as int] == out@[p as int]@);
            lemma_lex_total(out@[p as int]@, name@);
        }
    }
    let ghost x = name@;
    out.insert(p, name);
    proof {
        let after = views(out@);
        assert(after.len() == before.len() + 1);
        assert forall|k: int| 0 <= k < after.len() implies #[trigger] after[k] == (if k < p {
            before[k]
        } else if k == p {
            x
        } else {
            before[k - 1]
        }) by {
            assert(after[k] == out@[k]@);
        }
        assert forall|i: int, j: int| 0 <= i < j < after.len() implies lex_lt(#[trigger] after[i], #[trigger] after[j]) by {
            if j < p {
            } else if j == p {
                assert(before[i] == views(old(out)@)[i]);
            } else if i < p {
                if j - 1 == p as int {
                    lemma_lex_transitive(before[i], x, before[j - 1]);
                } else {
                    assert(lex_lt(before[i], before[j - 1]));
                }
            } else if i == p {
                if j - 1 > p {
                    assert(lex_lt(before[p as int], before[j - 1]));
                    lemma_lex_transitive(x, before[p as int], before[j - 1]);
                }
            } else {
                assert(lex_lt(before[i - 1], before[j - 1]));
            }
        }
        assert forall|s: Seq<char>| #[trigger] after.contains(s) <==> (before.contains(s) || s == x) by {
            if after.contains(s) {
                let k = choose|k: int| 0 <= k < after.len() && after[k] == s;
                if k < p {
                    assert(before[k] == s);
                } else if k > p {
                    assert(before[k - 1] == s);
                }
            }
            if before.contains(s) {
                let k = choose|k: int| 0 <= k < before.len() && before[k] == s;
                if k < p {
                    assert(after[k] == s);
                } else {
                    assert(after[k + 1] == s);
                }
            }
            if s == x {
                assert(after[p as int] == s);
            }
        }
    }
}

/// The font families offered for selection, from the names the platform
/// reports: without names that start with a dot, sorted as `String`s sort,
/// each name once.
pub fn installed_font_families(names: Vec<String>) -> (r: Vec<String>)
    ensures
        strictly_sorted(views(r@)),
        forall|s: Seq<char>| #[trigger] views(r@).contains(s) <==> (offered_family(s) && views(names@).contains(s)),
{
    let mut out: Vec<String> = Vec::new();
    for i in 0..names.len()
        invariant
            strictly_sorted(views(out@)),
            forall|s: Seq<char>| #[trigger] views(out@).contains(s) <==> (offered_family(s) && exists|k: int| 0 <= k < i && names@[k]@ == s),
    {
        if !starts_with_dot(names[i].as_str()) {
            insert_sorted(&mut out, names[i].clone());
        }
        proof {
            assert forall|s: Seq<char>| #[trigger] views(out@).contains(s) <==> (offered_family(s) && exists|k: int| 0 <= k < i + 1 && names@[k]@ == s) by {
                if offered_family(s) && exists|k: int| 0 <= k < i + 1 && names@[k]@ == s {
                    let k = choose|k: int| 0 <= k < i + 1 && names@[k]@ == s;
                    if k < i {
                    }
                }
            }
        }
    }
    proof {
        assert forall|s: Seq<char>| #[trigger] views(out@).contains(s) <==> (offered_family(s) && views(names@).contains(s)) by {
            if views(names@).contains(s) {
                let k = choose|k: int| 0 <= k < views(names@).len() && views(names@)[k] == s;
                assert(names@[k]@ == s);
            }
            if exists|k: int| 0 <= k < names@.len() && names@[k]@ == s {
                let k = choose|k: int| 0 <= k < names@.len() && names@[k]@ == s;
                assert(views(names@)[k] == s);
            }
        }
    }
    out
}

/// A strictly sorted list, such as the offered font families, names no
/// family twice.
pub proof fn law_sorted_families_are_distinct(s: Seq<Seq<char>>, i: int, j: int)
    requires
        strictly_sorted(s),
        0 <= i < s.len(),
        0 <= j < s.len(),
        i != j,
    ensures
        s[i] != s[j],
{
    lemma_lex_irreflexive(s[i]);
    if i < j {
        assert(lex_lt(s[i], s[j]));
    } else {
        assert(lex_lt(s[j], s[i]));
    }
}

/// The font choices of the settings page: the system default first, under
/// `default_label`, then each installed family under its own name.
pub open spec fn spec_font_options(families: Seq<Seq<char>>, default_label: Seq<char>) -> Seq<
    (Option<Seq<char>>, Seq<char>),
> {
    seq![(None::<Seq<char>>, default_label)] + families.map_values(|f: Seq<char>| (Some(f), f))
}

/// The view of a font choice list.
pub open spec fn font_option_views(v: Seq<(Option<String>, String)>) -> Seq<(Option<Seq<char>>, Seq<char>)> {
    v.map_values(|o: (Option<String>, String)| (opt_view(o.0), o.1@))
}

/// The font choices of the settings page.
pub fn font_options(families: &Vec<String>, default_label: &str) -> (r: Vec<(Option<String>, String)>)
    ensures
        font_option_views(r@) == spec_font_options(views(families@), default_label@),
{
    let mut out: Vec<(Option<String>, String)> = Vec::new();
    out.push((None, owned(default_label)));
    for i in 0..families.len()
        invariant
            out@.len() == i + 1,
            opt_view(out@[0].0) == None::<Seq<char>> && out@[0].1@ == default_label@,
            forall|j: int| 0 <= j < i ==> opt_view(#[trigger] out@[j + 1].0) == Some(families@[j]@) && out@[j
                + 1].1@ == families@[j]@,
    {
        out.push((Some(families[i].clone()), families[i].clone()));
    }
    let ghost want = spec_font_options(views(families@), default_label@);
    assert forall|k: int| 0 <= k < out@.len() implies #[trigger] font_option_views(out@)[k] == want[k] by {
        if k > 0 {
            assert(out@[(k - 1) + 1] == out@[k]);
            assert(views(families@)[k - 1] == families@[k - 1]@);
        }
    }
    assert(font_option_views(out@) =~= want);
    out
}

/// The key of a repository whose normalized path is shaped like an
/// absolute path is shaped like one too, so it never collides with a
/// start page's key.
pub proof fn law_repo_keys_keep_path_shape(normalized_path: Seq<char>, case_insensitive: bool)
    requires
        crate::tabs::path_shaped(normalized_path),
    ensures
        crate::tabs::path_shaped(
            if case_insensitive {
                normalized_path.map_values(|c: char| ascii_lower(c))
            } else {
                normalized_path
            },
        ),
{
    let folded = normalized_path.map_values(|c: char| ascii_lower(c));
    assert(folded[0] == ascii_lower(normalized_path[0]));
    if normalized_path.len() >= 2 {
        assert(folded[1] == ascii_lower(normalized_path[1]));
    }
}

/// The configured interface and monospace font families (`None`: the
/// system default).
pub struct FontChoice {
    pub ui_font_family: Option<String>,
    pub mono_font_family: Option<String>,
}

/// A configured family survives only when it is installed.
pub open spec fn available_family(family: Option<Seq<char>>, installed: Seq<Seq<char>>) -> Option<Seq<char>> {
    match family {
        Some(f) => if installed.contains(f) {
            Some(f)
        } else {
            None
        },
        None => None,
    }
}

fn installed_has(installed: &Vec<String>, family: &String) -> (r: bool)
    ensures
        r == views(installed@).contains(family@),
{
    for i in 0..installed.len()
        invariant
            forall|j: int| 0 <= j < i ==> installed@[j]@ != family@,
    {
        if installed[i].eq(family) {
            assert(views(installed@)[i as int] == family@);
            return true;
        }
    }
    assert forall|j: int| 0 <= j < views(installed@).len() implies views(installed@)[j] != family@ by {
        assert(views(installed@)[j] == installed@[j]@);
    }
    false
}

fn keep_available(family: &mut Option<String>, installed: &Vec<String>)
    ensures
        opt_view(*final(family)) == available_family(opt_view(*old(family)), views(installed@)),
{
    let keep = match family {
        Some(f) => installed_has(installed, f),
        None => true,
    };
    if !keep {
        *family = None;
    }
}

/// Reset configured font families that are not installed to the system
/// default.
pub fn normalize_typography(fonts: &mut FontChoice, installed: &Vec<String>)
    ensures
        opt_view(final(fonts).ui_font_family) == available_family(
            opt_view(old(fonts).ui_font_family),
            views(installed@),
        ),
        opt_view(final(fonts).mono_font_family) == available_family(
            opt_view(old(fonts).mono_font_family),
            views(installed@),
        ),
{
    keep_available(&mut fonts.ui_font_family, installed);
    keep_available(&mut fonts.mono_font_family, installed);
}

/// An override as entered: trimmed, and absent when blank.
pub open spec fn spec_normalize_override(value: Option<Seq<char>>) -> Option<Seq<char>> {
    match value {
        Some(v) => if trim(v).len() == 0 {
            None
        } else {
            Some(trim(v))
        },
        None => None,
    }
}

/// Trim an entered override; a blank one means "no override".
pub fn normalize_agent_override(value: Option<String>) -> (r: Option<String>)
    ensures
        opt_view(r) == spec_normalize_override(opt_view(value)),
{
    match value {
        Some(v) => {
            let t = str_trim(v.as_str());
            if t.unicode_len() == 0 {
                None
            } else {
                Some(owned(t))
            }
        },
        None => None,
    }
}

/// Whether a path text can name an Agent executable: it is not empty and
/// holds no control character.
pub open spec fn spec_executable_override_valid(path: Seq<char>) -> bool {
    path.len() > 0 && forall|i: int| 0 <= i < path.len() ==> !is_control(#[trigger] path[i])
}

/// Whether a path text can name an Agent executable.
pub fn executable_override_valid(path: &str) -> (r: bool)
    ensures
        r == spec_executable_override_valid(path@),
{
    let chars = chars_of(path);
    if chars.len() == 0 {
        return false;
    }
    for i in 0..chars.len()
        invariant
            chars@ == path@,
            forall|j: int| 0 <= j < i ==> !is_control(#[trigger] path@[j]),
    {
        if char_is_control(chars[i]) {
            return false;
        }
    }
    true
}

/// Launch overrides of one built-in Agent.
pub struct LaunchOverrides {
    pub model: Option<String>,
    pub reasoning_effort: Option<String>,
    pub variant: Option<String>,
}

/// Which override is set.
#[derive(Clone, Copy, Debug, PartialEq, Eq, Structural)]
pub enum OverrideField {
    Model,
    ReasoningEffort,
    Variant,
}

/// Mathematical form of launch overrides.
pub struct OverridesView {
    pub model: Option<Seq<char>>,
    pub reasoning_effort: Option<Seq<char>>,
    pub variant: Option<Seq<char>>,
}

impl View for LaunchOverrides {
    type V = OverridesView;

    open spec fn view(&self) -> OverridesView {
        OverridesView {
            model: opt_view(self.model),
            reasoning_effort: opt_view(self.reasoning_effort),
            variant: opt_view(self.variant),
        }
    }
}

pub open spec fn opt_overrides_view(o: Option<LaunchOverrides>) -> Option<OverridesView> {
    match o {
        Some(x) => Some(x@),
        None => None,
    }
}

pub open spec fn field_of(o: OverridesView, field: OverrideField) -> Option<Seq<char>> {
    match field {
        OverrideField::Model => o.model,
        OverrideField::ReasoningEffort => o.reasoning_effort,
        OverrideField::Variant => o.variant,
    }
}

/// No override at all.
pub open spec fn no_overrides() -> OverridesView {
    OverridesView { model: None, reasoning_effort: None, variant: None }
}

/// The overrides after setting `field` to the (normalized) `value`; an entry
/// without any override disappears.
pub open spec fn spec_set_override(
    current: Option<OverridesView>,
    field: OverrideField,
    value: Option<Seq<char>>,
) -> Option<OverridesView> {
    let base = match current {
        Some(c) => c,
        None => no_overrides(),
    };
    let next = match field {
        OverrideField::Model => OverridesView { model: value, ..base },
        OverrideField::ReasoningEffort => OverridesView { reasoning_effort: value, ..base },
        OverrideField::Variant => OverridesView { variant: value, ..base },
    };
    if next.model is None && next.reasoning_effort is None && next.variant is None {
        None
    } else {
        Some(next)
    }
}

/// The override change requested: `None` when the normalized value equals
/// the current one (nothing to do), else the overrides to validate and
/// store.
pub fn propose_override(current: &Option<LaunchOverrides>, field: OverrideField, value: Option<String>) -> (r: Option<
    Option<LaunchOverrides>,
>)
    ensures
        ({
            let v = spec_normalize_override(opt_view(value));
            let cur = match opt_overrides_view(*current) {
                Some(c) => field_of(c, field),
                None => None,
            };
            if cur == v {
                r is None
            } else {
                r matches Some(next) && opt_overrides_view(next) == spec_set_override(
                    opt_overrides_view(*current),
                    field,
                    v,
                )
            }
        }),
{
    let value = normalize_agent_override(value);
    let (mut model, mut reasoning_effort, mut variant) = match current {
        Some(c) => (
            crate::text::opt_string_clone(&c.model),
            crate::text::opt_string_clone(&c.reasoning_effort),
            crate::text::opt_string_clone(&c.variant),
        ),
        None => (None, None, None),
    };
    let same = match field {
        OverrideField::Model => crate::text::opt_string_eq(&model, &value),
        OverrideField::ReasoningEffort => crate::text::opt_string_eq(&reasoning_effort, &value),
        OverrideField::Variant => crate::text::opt_string_eq(&variant, &value),
    };
    if same {
        return None;
    }
    match field {
        OverrideField::Model => model = value,
        OverrideField::ReasoningEffort => reasoning_effort = value,
        OverrideField::Variant => variant = value,
    }
    if model.is_none() && reasoning_effort.is_none() && variant.is_none() {
        Some(None)
    } else {
        Some(Some(LaunchOverrides { model, reasoning_effort, variant }))
    }
}

/// A user-defined Agent profile; `L` holds how it is launched.
pub struct CustomAgentProfile<L> {
    pub id: String,
    pub name: String,
    pub launch: L,
}

/// How a custom profile launches its Agent: the executable, its
/// arguments, and the flag before the prompt (`None`: the prompt is the
/// trailing argument).
pub struct ProfileLaunch {
    pub executable: String,
    pub args: Vec<String>,
    pub prompt_flag: Option<String>,
}

/// The lines still to come after `cur` (the part of the current line read
/// so far), each without trailing white space, blank ones left out.
pub open spec fn lines_from(s: Seq<char>, cur: Seq<char>) -> Seq<Seq<char>>
    decreases s.len(),
{
    if s.len() == 0 {
        kept_line(cur)
    } else if s[0] == '\n' {
        kept_line(cur) + lines_from(s.drop_first(), Seq::empty())
    } else {
        lines_from(s.drop_first(), cur.push(s[0]))
    }
}

/// A line without trailing white space, unless that leaves nothing.
pub open spec fn kept_line(line: Seq<char>) -> Seq<Seq<char>> {
    if trim_end(line).len() > 0 {
        seq![trim_end(line)]
    } else {
        Seq::empty()
    }
}

/// The arguments typed one per line: each line without trailing white
/// space, blank lines left out.
pub open spec fn arg_lines(text: Seq<char>) -> Seq<Seq<char>> {
    lines_from(text, Seq::empty())
}

fn kept_line_exec(text: &str, x: &Vec<char>, start: usize, end: usize, out: &mut Vec<String>)
    requires
        x@ == text@,
        start <= end <= x@.len(),
    ensures
        views(final(out)@) == views(old(out)@) + kept_line(text@.subrange(start as int, end as int)),
{
    let mut e: usize = end;
    while e > start && char_is_ws(x[e - 1])
        invariant
            x@ == text@,
            start <= e <= end <= x@.len(),
            trim_end(text@.subrange(start as int, end as int)) == trim_end(text@.subrange(start as int, e as int)),
        decreases e - start,
    {
        assert(text@.subrange(start as int, e as int).drop_last() =~= text@.subrange(start as int, e - 1));
        e -= 1;
    }
    assert(trim_end(text@.subrange(start as int, e as int)) == text@.subrange(start as int, e as int));
    if e > start {
        let line = owned(text.substring_char(start, e));
        let ghost before = out@;
        out.push(line);
        assert(views(out@) =~= views(before) + kept_line(text@.subrange(start as int, end as int)));
    } else {
        assert(views(out@) =~= views(out@) + kept_line(text@.subrange(start as int, end as int)));
    }
}

/// The arguments typed one per line into the profile editor.
pub fn args_from_text(text: &str) -> (r: Vec<String>)
    ensures
        views(r@) == arg_lines(text@),
{
    let x = chars_of(text);
    let n = x.len();
    let mut out: Vec<String> = Vec::new();
    let mut start: usize = 0;
    let mut i: usize = 0;
    assert(text@.skip(0) =~= text@);
    assert(text@.subrange(0, 0) =~= Seq::<char>::empty());
    while i < n
        invariant
            x@ == text@,
            n == x@.len(),
            start <= i <= n,
            views(out@) + lines_from(text@.skip(i as int), text@.subrange(start as int, i as int)) == arg_lines(text@),
        decreases n - i,
    {
        let ghost rest = text@.skip(i as int);
        assert(rest[0] == x@[i as int]);
        assert(rest.drop_first() =~= text@.skip(i + 1));
        if x[i] == '\n' {
            let ghost before = views(out@);
            kept_line_exec(text, &x, start, i, &mut out);
            assert(text@.subrange(i + 1, i + 1) =~= Seq::<char>::empty());
            assert(before + (kept_line(text@.subrange(start as int, i as int)) + lines_from(text@.skip(i + 1), Seq::empty()))
                =~= views(out@) + lines_from(text@.skip(i + 1), Seq::empty()));
            start = i + 1;
        } else {
            assert(text@.subrange(start as int, i as int).push(x@[i as int]) =~= text@.subrange(start as int, i + 1));
        }
        i += 1;
    }
    assert(text@.skip(n as int) =~= Seq::<char>::empty());
    kept_line_exec(text, &x, start, n, &mut out);
    out
}

/// The profile as the editor saves it: the id, name, executable and prompt
/// flag without surrounding white space, the arguments one per line, and
/// the prompt passed after the flag only in flag mode.
pub open spec fn spec_editor_profile(
    id: Seq<char>,
    name: Seq<char>,
    executable: Seq<char>,
    args: Seq<char>,
    flag_mode: bool,
    prompt_flag: Seq<char>,
) -> (Seq<char>, Seq<char>, Seq<char>, Seq<Seq<char>>, Option<Seq<char>>) {
    (trim(id), trim(name), trim(executable), arg_lines(args), if flag_mode {
        Some(trim(prompt_flag))
    } else {
        None
    })
}

/// The profile the editor saves from what was typed into it.
pub fn editor_profile(
    id: &str,
    name: &str,
    executable: &str,
    args: &str,
    flag_mode: bool,
    prompt_flag: &str,
) -> (r: CustomAgentProfile<ProfileLaunch>)
    ensures
        (r.id@, r.name@, r.launch.executable@, views(r.launch.args@), opt_view(r.launch.prompt_flag))
            == spec_editor_profile(id@, name@, executable@, args@, flag_mode, prompt_flag@),
{
    let flag = if flag_mode {
        Some(owned(str_trim(prompt_flag)))
    } else {
        None
    };
    CustomAgentProfile {
        id: owned(str_trim(id)),
        name: owned(str_trim(name)),
        launch: ProfileLaunch {
            executable: owned(str_trim(executable)),
            args: args_from_text(args),
            prompt_flag: flag,
        },
    }
}

/// What the profile editor shows when it opens: the profile it edits (its
/// id, to replace it on save), its fields, its arguments one per line, and
/// its prompt flag.
pub struct EditorFields {
    pub previous_id: Option<String>,
    pub id: String,
    pub name: String,
    pub executable: String,
    pub args: String,
    pub flag_mode: bool,
    pub prompt_flag: String,
}

/// The editor's fields for `profile`, or for a new profile (`None`), which
/// starts with the id `custom-agent`.
pub open spec fn spec_editor_fields(profile: Option<CustomAgentProfile<ProfileLaunch>>) -> (
    Option<Seq<char>>,
    Seq<char>,
    Seq<char>,
    Seq<char>,
    Seq<char>,
    bool,
    Seq<char>,
) {
    match profile {
        Some(p) => (
            Some(p.id@),
            p.id@,
            p.name@,
            p.launch.executable@,
            join(views(p.launch.args@), seq!['\n']),
            p.launch.prompt_flag is Some,
            match p.launch.prompt_flag {
                Some(f) => f@,
                None => Seq::empty(),
            },
        ),
        None => (None, "custom-agent"@, Seq::empty(), Seq::empty(), Seq::empty(), false, Seq::empty()),
    }
}

/// The fields the profile editor opens with.
pub fn editor_fields(profile: Option<&CustomAgentProfile<ProfileLaunch>>) -> (r: EditorFields)
    ensures
        (opt_view(r.previous_id), r.id@, r.name@, r.executable@, r.args@, r.flag_mode, r.prompt_flag@)
            == spec_editor_fields(match profile {
            Some(p) => Some(*p),
            None => None,
        }),
{
    match profile {
        Some(p) => {
            proof {
                reveal_strlit("\n");
                assert("\n"@ =~= seq!['\n']);
            }
            let (flag_mode, prompt_flag) = match &p.launch.prompt_flag {
                Some(f) => (true, f.clone()),
                None => (false, String::new()),
            };
            EditorFields {
                previous_id: Some(p.id.clone()),
                id: p.id.clone(),
                name: p.name.clone(),
                executable: p.launch.executable.clone(),
                args: join_strings(&p.launch.args, "\n"),
                flag_mode,
                prompt_flag,
            }
        },
        None => EditorFields {
            previous_id: None,
            id: owned("custom-agent"),
            name: String::new(),
            executable: String::new(),
            args: String::new(),
            flag_mode: false,
            prompt_flag: String::new(),
        },
    }
}

proof fn lemma_lines_from_plain(s: Seq<char>, t: Seq<char>, cur: Seq<char>)
    requires
        !s.contains('\n'),
    ensures
        lines_from(s + t, cur) == lines_from(t, cur + s),
    decreases s.len(),
{
    if s.len() == 0 {
        assert(s + t =~= t);
        assert(cur + s =~= cur);
    } else {
        assert((s + t)[0] == s[0]);
        assert((s + t).drop_first() =~= s.drop_first() + t);
        assert(s[0] != '\n') by {
            if s[0] == '\n' {
                assert(s.contains('\n'));
            }
        }
        assert(!s.drop_first().contains('\n')) by {
            if s.drop_first().contains('\n') {
                let k = choose|k: int| 0 <= k < s.drop_first().len() && s.drop_first()[k] == '\n';
                assert(s[k + 1] == '\n');
            }
        }
        lemma_lines_from_plain(s.drop_first(), t, cur.push(s[0]));
        assert(cur.push(s[0]) + s.drop_first() =~= cur + s);
    }
}

proof fn lemma_join_front(a: Seq<char>, rest: Seq<Seq<char>>, sep: Seq<char>)
    requires
        rest.len() > 0,
    ensures
        join(seq![a] + rest, sep) == a + sep + join(rest, sep),
    decreases rest.len(),
{
    let whole = seq![a] + rest;
    assert(whole.len() >= 2);
    assert(whole.last() == rest.last());
    if rest.len() == 1 {
        assert(whole.drop_last() =~= seq![a]);
        assert(join(seq![a], sep) == a);
        assert(join(rest, sep) == rest[0]);
        assert(rest.last() == rest[0]);
    } else {
        lemma_join_front(a, rest.drop_last(), sep);
        assert(whole.drop_last() =~= seq![a] + rest.drop_last());
        assert(a + sep + join(rest.drop_last(), sep) + sep + rest.last() =~= a + sep + (join(
            rest.drop_last(),
            sep,
        ) + sep + rest.last()));
    }
}

/// A line the editor keeps as it is: not blank, without trailing white
/// space, and without a line feed.
pub open spec fn plain_arg(a: Seq<char>) -> bool {
    trim_end(a) == a && a.len() > 0 && !a.contains('\n')
}

proof fn lemma_arg_lines_of_join(args: Seq<Seq<char>>)
    requires
        forall|i: int| 0 <= i < args.len() ==> plain_arg(#[trigger] args[i]),
    ensures
        arg_lines(join(args, seq!['\n'])) == args,
    decreases args.len(),
{
    if args.len() == 0 {
        assert(trim_end(Seq::<char>::empty()) =~= Seq::<char>::empty());
    } else {
        let a = args[0];
        let rest = args.drop_first();
        assert(plain_arg(a));
        assert(args =~= seq![a] + rest);
        if rest.len() == 0 {
            assert(join(args, seq!['\n']) == a);
            assert(a =~= a + Seq::<char>::empty());
            lemma_lines_from_plain(a, Seq::empty(), Seq::empty());
            assert(Seq::<char>::empty() + a =~= a);
        } else {
            assert forall|i: int| 0 <= i < rest.len() implies plain_arg(#[trigger] rest[i]) by {
                assert(rest[i] == args[i + 1]);
            }
            lemma_arg_lines_of_join(rest);
            lemma_join_front(a, rest, seq!['\n']);
            let tail = seq!['\n'] + join(rest, seq!['\n']);
            assert(a + seq!['\n'] + join(rest, seq!['\n']) =~= a + tail);
            lemma_lines_from_plain(a, tail, Seq::empty());
            assert(Seq::<char>::empty() + a =~= a);
            assert(tail[0] == '\n');
            assert(tail.drop_first() =~= join(rest, seq!['\n']));
            assert(seq![a] + rest =~= args);
        }
    }
}

/// Opening a profile in the editor and saving it unchanged gives the same
/// profile back, when its fields carry no surrounding white space and each
/// argument is a plain line.
pub proof fn law_editor_round_trip(p: CustomAgentProfile<ProfileLaunch>)
    requires
        trim(p.id@) == p.id@,
        trim(p.name@) == p.name@,
        trim(p.launch.executable@) == p.launch.executable@,
        match p.launch.prompt_flag {
            Some(f) => trim(f@) == f@,
            None => true,
        },
        forall|i: int| 0 <= i < p.launch.args@.len() ==> plain_arg(#[trigger] p.launch.args@[i]@),
    ensures
        ({
            let f = spec_editor_fields(Some(p));
            spec_editor_profile(f.1, f.2, f.3, f.4, f.5, f.6)
        }) == (p.id@, p.name@, p.launch.executable@, views(p.launch.args@), opt_view(p.launch.prompt_flag)),
{
    let args = views(p.launch.args@);
    assert forall|i: int| 0 <= i < args.len() implies plain_arg(#[trigger] args[i]) by {
        assert(args[i] == p.launch.args@[i]@);
    }
    lemma_arg_lines_of_join(args);
}

/// The user's Agent profiles and the default one.
pub struct AgentProfiles<L> {
    pub default_profile_id: Option<String>,
    pub custom_profiles: Vec<CustomAgentProfile<L>>,
}

/// The profiles other than those named `id`, in order.
pub open spec fn without_profile<L>(v: Seq<CustomAgentProfile<L>>, id: Seq<char>) -> Seq<CustomAgentProfile<L>> {
    v.filter(|p: CustomAgentProfile<L>| p.id@ != id)
}

fn drop_profile<L>(profiles: &mut Vec<CustomAgentProfile<L>>, id: &str)
    ensures
        final(profiles)@ == without_profile(old(profiles)@, id@),
{
    let ghost start = profiles@;
    let n = profiles.len();
    let mut rest: Vec<CustomAgentProfile<L>> = Vec::new();
    std::mem::swap(&mut rest, profiles);
    let mut i: usize = 0;
    proof {
        reveal(Seq::filter);
        assert(start.take(0) =~= Seq::<CustomAgentProfile<L>>::empty());
    }
    while rest.len() > 0
        invariant
            rest@ == start.subrange(i as int, start.len() as int),
            i + rest@.len() == start.len(),
            start.len() == n,
            profiles@ == without_profile(start.take(i as int), id@),
        decreases rest@.len(),
    {
        let p = rest.remove(0);
        assert(p == start[i as int]);
        assert(start.take(i + 1).drop_last() =~= start.take(i as int));
        assert(start.take(i + 1).last() == p);
        proof {
            reveal(Seq::filter);
        }
        if !str_eq(p.id.as_str(), id) {
            profiles.push(p);
        }
        i += 1;
        assert(rest@ =~= start.subrange(i as int, start.len() as int));
    }
    assert(start.take(start.len() as int) =~= start);
}

impl<L> AgentProfiles<L> {
    /// The custom profile with id `id`, the first if several.
    pub fn custom_profile(&self, id: &str) -> (r: Option<&CustomAgentProfile<L>>)
        ensures
            match r {
                Some(p) => exists|i: int|
                    0 <= i < self.custom_profiles@.len() && self.custom_profiles@[i] == *p && p.id@ == id@
                        && forall|j: int| 0 <= j < i ==> (#[trigger] self.custom_profiles@[j]).id@ != id@,
                None => forall|j: int|
                    0 <= j < self.custom_profiles@.len() ==> (#[trigger] self.custom_profiles@[j]).id@ != id@,
            },
    {
        for i in 0..self.custom_profiles.len()
            invariant
                forall|j: int| 0 <= j < i ==> (#[trigger] self.custom_profiles@[j]).id@ != id@,
        {
            if str_eq(self.custom_profiles[i].id.as_str(), id) {
                return Some(&self.custom_profiles[i]);
            }
        }
        None
    }

    /// Save `profile`, replacing the profile it was edited from
    /// (`previous_id`); a renamed default profile stays the default.
    pub fn save_profile(&mut self, previous_id: Option<&str>, profile: CustomAgentProfile<L>)
        ensures
            final(self).custom_profiles@ == match previous_id {
                Some(p) => without_profile(old(self).custom_profiles@, p@),
                None => old(self).custom_profiles@,
            }.push(profile),
            opt_view(final(self).default_profile_id) == match previous_id {
                Some(p) => if opt_view(old(self).default_profile_id) == Some(p@) {
                    Some(profile.id@)
                } else {
                    opt_view(old(self).default_profile_id)
                },
                None => opt_view(old(self).default_profile_id),
            },
    {
        match previous_id {
            Some(p) => {
                let is_default = match &self.default_profile_id {
                    Some(d) => str_eq(d.as_str(), p),
                    None => false,
                };
                if is_default {
                    self.default_profile_id = Some(profile.id.clone());
                }
                drop_profile(&mut self.custom_profiles, p);
            },
            None => {},
        }
        self.custom_profiles.push(profile);
    }

    /// Remove the custom profiles named `id`; whether one was removed. The
    /// default is cleared when it named a removed profile.
    pub fn remove_profile(&mut self, id: &str) -> (r: bool)
        ensures
            final(self).custom_profiles@ == without_profile(old(self).custom_profiles@, id@),
            r == (final(self).custom_profiles@.len() != old(self).custom_profiles@.len()),
            opt_view(final(self).default_profile_id) == if r && opt_view(old(self).default_profile_id) == Some(id@) {
                None
            } else {
                opt_view(old(self).default_profile_id)
            },
    {
        let before = self.custom_profiles.len();
        drop_profile(&mut self.custom_profiles, id);
        if self.custom_profiles.len() == before {
            return false;
        }
        self.clear_default_if(id);
        true
    }

    /// Clear the default profile when it is `id` (for a removed built-in).
    pub fn clear_default_if(&mut self, id: &str)
        ensures
            final(self).custom_profiles == old(self).custom_profiles,
            opt_view(final(self).default_profile_id) == if opt_view(old(self).default_profile_id) == Some(id@) {
                None
            } else {
                opt_view(old(self).default_profile_id)
            },
    {
        let is_default = match &self.default_profile_id {
            Some(d) => str_eq(d.as_str(), id),
            None => false,
        };
        if is_default {
            self.default_profile_id = None;
        }
    }

    /// Make `profile_id` the default when it names a known profile and is not
    /// the default yet; whether the default changed.
    pub fn set_default_profile(&mut self, profile_id: String, known: bool) -> (r: bool)
        ensures
            r == (known && opt_view(old(self).default_profile_id) != Some(profile_id@)),
            final(self).custom_profiles == old(self).custom_profiles,
            opt_view(final(self).default_profile_id) == if r {
                Some(profile_id@)
            } else {
                opt_view(old(self).default_profile_id)
            },
    {
        if !known {
            return false;
        }
        let same = match &self.default_profile_id {
            Some(d) => d.eq(&profile_id),
            None => false,
        };
        if same {
            return false;
        }
        self.default_profile_id = Some(profile_id);
        true
    }
}

/// The profile menu: the built-in Agents, then each valid custom profile
/// whose identifier is not listed yet.
pub open spec fn spec_profile_options(
    options: Seq<(Seq<char>, Seq<char>)>,
    custom: Seq<(Seq<char>, Seq<char>)>,
) -> Seq<(Seq<char>, Seq<char>)>
    decreases custom.len(),
{
    if custom.len() == 0 {
        options
    } else {
        let before = spec_profile_options(options, custom.drop_last());
        if exists|k: int| 0 <= k < before.len() && #[trigger] before[k].0 == custom.last().0 {
            before
        } else {
            before.push(custom.last())
        }
    }
}

pub open spec fn pair_views(v: Seq<(String, String)>) -> Seq<(Seq<char>, Seq<char>)> {
    v.map_values(|p: (String, String)| (p.0@, p.1@))
}

pub open spec fn profile_pairs<L>(v: Seq<CustomAgentProfile<L>>) -> Seq<(Seq<char>, Seq<char>)> {
    v.map_values(|p: CustomAgentProfile<L>| (p.id@, p.name@))
}

/// The profile menu entries (identifier, name): the built-ins in order, then
/// the valid custom profiles not already listed.
pub fn profile_options<L>(builtins: &Vec<(String, String)>, valid_custom: &Vec<CustomAgentProfile<L>>) -> (r: Vec<
    (String, String),
>)
    ensures
        pair_views(r@) == spec_profile_options(pair_views(builtins@), profile_pairs(valid_custom@)),
{
    let mut options: Vec<(String, String)> = Vec::new();
    for i in 0..builtins.len()
        invariant
            options@.len() == i,
            forall|j: int| 0 <= j < i ==> (#[trigger] options@[j]).0@ == builtins@[j].0@ && options@[j].1@ == builtins@[j].1@,
    {
        options.push((builtins[i].0.clone(), builtins[i].1.clone()));
    }
    assert(pair_views(options@) =~= pair_views(builtins@));
    let ghost cv = profile_pairs(valid_custom@);
    assert(cv.take(0) =~= Seq::<(Seq<char>, Seq<char>)>::empty());
    for i in 0..valid_custom.len()
        invariant
            cv == profile_pairs(valid_custom@),
            pair_views(options@) == spec_profile_options(pair_views(builtins@), cv.take(i as int)),
    {
        let p = &valid_custom[i];
        assert(cv.take(i + 1).drop_last() =~= cv.take(i as int));
        assert(cv.take(i + 1).last() == (p.id@, p.name@));
        let ghost ov = pair_views(options@);
        let mut listed = false;
        for k in 0..options.len()
            invariant
                ov == pair_views(options@),
                listed == exists|m: int| 0 <= m < k && #[trigger] ov[m].0 == p.id@,
        {
            if options[k].0.eq(&p.id) {
                assert(ov[k as int].0 == p.id@);
                listed = true;
            }
        }
        if !listed {
            options.push((p.id.clone(), p.name.clone()));
            assert(pair_views(options@) =~= ov.push((p.id@, p.name@)));
        }
    }
    assert(cv.take(valid_custom@.len() as int) =~= cv);
    options
}


/// The answer of one profile's version probe: the first line of the version
/// it printed, or of the error.
pub open spec fn probe_result_view(r: Result<String, String>) -> Result<Seq<char>, Seq<char>> {
    match r {
        Ok(v) => Ok(v@),
        Err(e) => Err(e@),
    }
}

/// One row of the probe table: a profile and its answer, `None` while the
/// probe runs.
pub open spec fn probe_row_view(row: (String, Option<Result<String, String>>)) -> (Seq<char>, Option<
    Result<Seq<char>, Seq<char>>,
>) {
    (row.0@, match row.1 {
        Some(r) => Some(probe_result_view(r)),
        None => None,
    })
}

/// The version probes of the settings page: a generation that each new
/// round of probes increments, and the answers of the current round.
pub struct AgentProbes {
    pub generation: u64,
    pub results: Vec<(String, Option<Result<String, String>>)>,
}

impl AgentProbes {
    /// No probe has run.
    pub fn new() -> (r: AgentProbes)
        ensures
            r.generation == 0,
            r.results@.len() == 0,
    {
        AgentProbes { generation: 0, results: Vec::new() }
    }

    /// Start a round of probes for the profiles `ids`, in order: a new
    /// generation, every answer pending. The generation of the round.
    pub fn start(&mut self, ids: &Vec<String>) -> (r: u64)
        ensures
            r == final(self).generation,
            final(self).generation == (if old(self).generation == u64::MAX {
                0
            } else {
                (old(self).generation + 1) as u64
            }),
            final(self).results@.map_values(|row: (String, Option<Result<String, String>>)| probe_row_view(row))
                == views(ids@).map_values(
                |id: Seq<char>| (id, None::<Result<Seq<char>, Seq<char>>>),
            ),
    {
        self.generation = self.generation.wrapping_add(1);
        let mut rows: Vec<(String, Option<Result<String, String>>)> = Vec::new();
        for i in 0..ids.len()
            invariant
                rows@.len() == i,
                forall|j: int| 0 <= j < i ==> #[trigger] probe_row_view(rows@[j]) == (ids@[j]@, None::<
                    Result<Seq<char>, Seq<char>>,
                >),
        {
            rows.push((ids[i].clone(), None));
        }
        assert(rows@.map_values(|row: (String, Option<Result<String, String>>)| probe_row_view(row))
            =~= views(ids@).map_values(|id: Seq<char>| (id, None::<Result<Seq<char>, Seq<char>>>)));
        self.results = rows;
        self.generation
    }

    /// Whether round `generation` is still the current one (a superseded
    /// round neither probes nor reports).
    pub fn is_current(&self, generation: u64) -> (r: bool)
        ensures
            r == (generation == self.generation),
    {
        generation == self.generation
    }

    /// Record the answers of round `generation`, unless a newer round
    /// started since. Whether they were recorded.
    pub fn finish(&mut self, generation: u64, answers: Vec<(String, Result<String, String>)>) -> (applied: bool)
        ensures
            applied == (generation == old(self).generation),
            final(self).generation == old(self).generation,
            applied ==> final(self).results@.map_values(
                |row: (String, Option<Result<String, String>>)| probe_row_view(row),
            ) == answers@.map_values(
                |a: (String, Result<String, String>)| (a.0@, Some(probe_result_view(a.1))),
            ),
            !applied ==> final(self).results@ == old(self).results@,
    {
        if generation != self.generation {
            return false;
        }
        let mut rows: Vec<(String, Option<Result<String, String>>)> = Vec::new();
        let mut rest = answers;
        let ghost all = rest@;
        let n = rest.len();
        let mut i: usize = 0;
        while rest.len() > 0
            invariant
                rest@ == all.skip(i as int),
                all.len() == n,
                i <= n,
                rows@.len() == i,
                forall|j: int| 0 <= j < i ==> #[trigger] probe_row_view(rows@[j]) == (all[j].0@, Some(
                    probe_result_view(all[j].1),
                )),
            decreases rest@.len(),
        {
            let (id, answer) = rest.remove(0);
            assert(all[i as int] == (id, answer));
            rows.push((id, Some(answer)));
            i += 1;
            assert(rest@ =~= all.skip(i as int));
        }
        assert(rows@.map_values(|row: (String, Option<Result<String, String>>)| probe_row_view(row))
            =~= all.map_values(|a: (String, Result<String, String>)| (a.0@, Some(probe_result_view(a.1)))));
        self.results = rows;
        true
    }
}


impl AgentProbes {
    /// The answer of the current round for profile `id` (the first row for
    /// it); `None` while it is pending or when the profile is not probed.
    pub fn answer(&self, id: &str) -> (r: Option<&Result<String, String>>)
        ensures
            match r {
                Some(a) => exists|i: int|
                    0 <= i < self.results@.len() && self.results@[i].0@ == id@ && self.results@[i].1 == Some(*a)
                        && forall|j: int| 0 <= j < i ==> (#[trigger] self.results@[j]).0@ != id@,
                None => forall|i: int|
                    #![trigger self.results@[i]]
                    0 <= i < self.results@.len() && self.results@[i].0@ == id@ && (forall|j: int|
                        0 <= j < i ==> (#[trigger] self.results@[j]).0@ != id@) ==> self.results@[i].1 is None,
            },
    {
        for i in 0..self.results.len()
            invariant
                forall|j: int| 0 <= j < i ==> (#[trigger] self.results@[j]).0@ != id@,
        {
            if str_eq(self.results[i].0.as_str(), id) {
                match &self.results[i].1 {
                    Some(a) => {
                        assert(self.results@[i as int].0@ == id@ && self.results@[i as int].1 == Some(*a));
                        return Some(a);
                    },
                    None => {
                        return None;
                    },
                }
            }
        }
        None
    }
}

/// What a profile row of the settings page says of its probe, and whether
/// its test button is enabled: an unresolved profile is invalid, an explicit
/// executable path that does not exist is not found, else the probe's
/// version, its error, or that it is still checking. Testing needs a
/// resolved profile whose executable exists and whose probe did not fail.
pub open spec fn spec_probe_row(
    resolved: bool,
    executable_path_missing: bool,
    answer: Option<Result<Seq<char>, Seq<char>>>,
) -> (StatusView, bool) {
    let label = if !resolved {
        msg("agent-profile-invalid"@)
    } else if executable_path_missing {
        msg("agent-executable-not-found"@)
    } else {
        match answer {
            Some(Ok(v)) => StatusView::Raw(v),
            Some(Err(e)) => msg1("agent-probe-unavailable"@, "error"@, e),
            None => msg("agent-probe-checking"@),
        }
    };
    (label, resolved && !executable_path_missing && !(answer matches Some(Err(_))))
}

/// The probe status and test availability of a profile row.
pub fn probe_row(resolved: bool, executable_path_missing: bool, answer: Option<&Result<String, String>>) -> (r: (
    StatusText,
    bool,
))
    ensures
        (r.0@, r.1) == spec_probe_row(resolved, executable_path_missing, match answer {
            Some(a) => Some(probe_result_view(*a)),
            None => None,
        }),
{
    let label = if !resolved {
        message("agent-profile-invalid")
    } else if executable_path_missing {
        message("agent-executable-not-found")
    } else {
        match answer {
            Some(Ok(v)) => StatusText::Raw(v.clone()),
            Some(Err(e)) => message1("agent-probe-unavailable", "error", e.clone()),
            None => message("agent-probe-checking"),
        }
    };
    let failed = match answer {
        Some(Err(_)) => true,
        _ => false,
    };
    (label, resolved && !executable_path_missing && !failed)
}

} // verus!
