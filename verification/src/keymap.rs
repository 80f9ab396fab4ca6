//! Global shortcut bookkeeping: the commands that accept shortcuts, the
//! settings-page text form of key lists, and the minimal binding delta
//! between two resolved keymaps.
//!
//! The keymap is shared: bindings added later win ties, and a suppressing
//! binding hides older bindings for the same keys. Edits are therefore
//! applied as deltas (suppress retired or reassigned combinations, then bind
//! new ones) so a remapping takes effect at once without touching bindings
//! owned by other code. Canonicalizing a single keystroke is the UI toolkit's
//! job; everything around it is here.
use vstd::prelude::*;
use crate::text::{chars_of, char_is_ws, is_ws, owned, str_eq, str_trim, trim, views};

verus! {

/// The command that quits the application.
pub const QUIT_COMMAND: &'static str = "app.quit";

/// The identifiers of all commands that accept shortcuts.
pub fn command_ids() -> (r: Vec<&'static str>)
    ensures
        r@.len() == 1,
        r@[0]@ == QUIT_COMMAND@,
{
    let mut ids: Vec<&'static str> = Vec::new();
    ids.push(QUIT_COMMAND);
    ids
}

/// What a shortcut command does.
#[derive(Clone, Copy, Debug, PartialEq, Eq, Structural)]
pub enum ShortcutAction {
    /// Quit the application (deferred while operations are active).
    Quit,
}

/// The action of a command, for known commands only.
pub fn action_for(command: &str) -> (r: Option<ShortcutAction>)
    ensures
        r == (if command@ == QUIT_COMMAND@ {
            Some(ShortcutAction::Quit)
        } else {
            None
        }),
{
    if str_eq(command, QUIT_COMMAND) {
        Some(ShortcutAction::Quit)
    } else {
        None
    }
}

/// What separates the pieces of a text.
#[derive(Clone, Copy, Debug, PartialEq, Eq, Structural)]
pub enum Separator {
    Comma,
    Whitespace,
}

pub open spec fn is_separator(kind: Separator, c: char) -> bool {
    match kind {
        Separator::Comma => c == ',',
        Separator::Whitespace => is_ws(c),
    }
}

/// The pieces of `s` between separators, as `str::split` yields them: one
/// piece more than there are separators, empty pieces included.
pub open spec fn pieces(s: Seq<char>, kind: Separator) -> Seq<Seq<char>>
    decreases s.len(),
{
    if s.len() == 0 {
        seq![Seq::<char>::empty()]
    } else {
        let p = pieces(s.drop_last(), kind);
        if is_separator(kind, s.last()) {
            p.push(Seq::<char>::empty())
        } else {
            p.update(p.len() - 1, p.last().push(s.last()))
        }
    }
}

/// The non-empty pieces of a list, in order.
pub open spec fn nonempty_pieces(ps: Seq<Seq<char>>) -> Seq<Seq<char>>
    decreases ps.len(),
{
    if ps.len() == 0 {
        seq![]
    } else if ps.last().len() == 0 {
        nonempty_pieces(ps.drop_last())
    } else {
        nonempty_pieces(ps.drop_last()).push(ps.last())
    }
}

/// The pieces of a list with surrounding white space trimmed, empty ones
/// dropped, in order.
pub open spec fn trimmed_pieces(ps: Seq<Seq<char>>) -> Seq<Seq<char>>
    decreases ps.len(),
{
    if ps.len() == 0 {
        seq![]
    } else if trim(ps.last()).len() == 0 {
        trimmed_pieces(ps.drop_last())
    } else {
        trimmed_pieces(ps.drop_last()).push(trim(ps.last()))
    }
}

pub open spec fn str_views(v: Seq<&str>) -> Seq<Seq<char>> {
    v.map_values(|s: &str| s@)
}

fn char_is_separator(kind: Separator, c: char) -> (r: bool)
    ensures
        r == is_separator(kind, c),
{
    match kind {
        Separator::Comma => c == ',',
        Separator::Whitespace => char_is_ws(c),
    }
}

/// Split `text` at every separator.
fn split_text<'a>(text: &'a str, kind: Separator) -> (r: Vec<&'a str>)
    ensures
        str_views(r@) == pieces(text@, kind),
{
    let chars = chars_of(text);
    let n = chars.len();
    let mut out: Vec<&'a str> = Vec::new();
    let mut start: usize = 0;
    let mut i: usize = 0;
    assert(text@.take(0) =~= Seq::<char>::empty());
    assert(str_views(out@).push(text@.subrange(0, 0)) =~= seq![Seq::<char>::empty()]);
    while i < n
        invariant
            chars@ == text@,
            n == text@.len(),
            start <= i <= n,
            pieces(text@.take(i as int), kind) == str_views(out@).push(
                text@.subrange(start as int, i as int),
            ),
        decreases n - i,
    {
        assert(text@.take(i + 1).drop_last() =~= text@.take(i as int));
        assert(text@.take(i + 1).last() == text@[i as int]);
        let ghost before = out@;
        if char_is_separator(kind, chars[i]) {
            let piece = text.substring_char(start, i);
            out.push(piece);
            assert(str_views(out@) =~= str_views(before).push(piece@));
            start = i + 1;
            assert(text@.subrange(start as int, i + 1) =~= Seq::<char>::empty());
        } else {
            assert(text@.subrange(start as int, i + 1) =~= text@.subrange(start as int, i as int).push(
                text@[i as int],
            ));
        }
        i += 1;
    }
    let last = text.substring_char(start, n);
    let ghost before = out@;
    out.push(last);
    assert(str_views(out@) =~= str_views(before).push(last@));
    assert(text@.take(n as int) =~= text@);
    out
}

/// The keystrokes of one combination: its white-space separated words.
pub fn combo_strokes(combo: &str) -> (r: Vec<String>)
    ensures
        views(r@) == nonempty_pieces(pieces(combo@, Separator::Whitespace)),
{
    let words = split_text(combo, Separator::Whitespace);
    let ghost ps = str_views(words@);
    let mut out: Vec<String> = Vec::new();
    for i in 0..words.len()
        invariant
            ps == str_views(words@),
            views(out@) == nonempty_pieces(ps.take(i as int)),
    {
        assert(ps.take(i + 1).drop_last() =~= ps.take(i as int));
        assert(ps.take(i + 1).last() == words@[i as int]@);
        let w = words[i];
        if w.unicode_len() > 0 {
            let ghost before = out@;
            out.push(owned(w));
            assert(views(out@) =~= views(before).push(w@));
        }
    }
    assert(ps.take(words@.len() as int) =~= ps);
    out
}

/// The settings-page text of a key list split into combinations: the
/// comma-separated parts, trimmed, empty ones dropped.
pub fn combo_parts(text: &str) -> (r: Vec<String>)
    ensures
        views(r@) == trimmed_pieces(pieces(text@, Separator::Comma)),
{
    let parts = split_text(text, Separator::Comma);
    let ghost ps = str_views(parts@);
    let mut out: Vec<String> = Vec::new();
    for i in 0..parts.len()
        invariant
            ps == str_views(parts@),
            views(out@) == trimmed_pieces(ps.take(i as int)),
    {
        assert(ps.take(i + 1).drop_last() =~= ps.take(i as int));
        assert(ps.take(i + 1).last() == parts@[i as int]@);
        let t = str_trim(parts[i]);
        if t.unicode_len() > 0 {
            let ghost before = out@;
            out.push(owned(t));
            assert(views(out@) =~= views(before).push(t@));
        }
    }
    assert(ps.take(parts@.len() as int) =~= ps);
    out
}

/// The pieces of a list joined with `sep` between neighbours.
pub open spec fn join(ps: Seq<Seq<char>>, sep: Seq<char>) -> Seq<char>
    decreases ps.len(),
{
    if ps.len() == 0 {
        Seq::empty()
    } else if ps.len() == 1 {
        ps[0]
    } else {
        join(ps.drop_last(), sep) + sep + ps.last()
    }
}

/// Join strings with `sep` between neighbours.
pub fn join_strings(parts: &Vec<String>, sep: &str) -> (r: String)
    ensures
        r@ == join(views(parts@), sep@),
{
    let ghost ps = views(parts@);
    let mut out = String::new();
    for i in 0..parts.len()
        invariant
            ps == views(parts@),
            out@ == join(ps.take(i as int), sep@),
    {
        assert(ps.take(i + 1).drop_last() =~= ps.take(i as int));
        assert(ps.take(i + 1).last() == parts@[i as int]@);
        if i > 0 {
            out.append(sep);
        } else {
            assert(ps.take(1) =~= seq![parts@[0]@]);
        }
        out.append(parts[i].as_str());
    }
    assert(ps.take(parts@.len() as int) =~= ps);
    out
}

/// Settings-page display form of a key list.
pub fn combo_display(keys: &Vec<String>) -> (r: String)
    ensures
        r@ == join(views(keys@), ", "@),
{
    join_strings(keys, ", ")
}

proof fn lemma_pieces_nonempty(s: Seq<char>, kind: Separator)
    ensures
        pieces(s, kind).len() >= 1,
    decreases s.len(),
{
    if s.len() > 0 {
        lemma_pieces_nonempty(s.drop_last(), kind);
    }
}

proof fn lemma_pieces_plain_suffix(s: Seq<char>, t: Seq<char>, kind: Separator)
    requires
        forall|i: int| 0 <= i < t.len() ==> !is_separator(kind, #[trigger] t[i]),
    ensures
        pieces(s + t, kind) == pieces(s, kind).update(
            pieces(s, kind).len() - 1,
            pieces(s, kind).last() + t,
        ),
    decreases t.len(),
{
    lemma_pieces_nonempty(s, kind);
    let p = pieces(s, kind);
    if t.len() == 0 {
        assert(s + t =~= s);
        assert(p.last() + t =~= p.last());
        assert(p.update(p.len() - 1, p.last()) =~= p);
    } else {
        let u = t.drop_last();
        lemma_pieces_plain_suffix(s, u, kind);
        assert((s + t).drop_last() =~= s + u);
        assert((s + t).last() == t.last());
        assert(!is_separator(kind, t[t.len() - 1]));
        let q = pieces(s + u, kind);
        assert(q.last() == p.last() + u);
        assert((p.last() + u).push(t.last()) =~= p.last() + t);
        assert(q.update(q.len() - 1, q.last().push(t.last())) =~= p.update(p.len() - 1, p.last() + t));
    }
}

proof fn lemma_trim_after_space(a: Seq<char>)
    ensures
        trim(seq![' '] + a) == trim(a),
{
    let b = seq![' '] + a;
    assert(b.subrange(1, b.len() as int) =~= a);
    assert(is_ws(b[0]));
}

/// A combination as the settings page lists it: not blank, without
/// surrounding white space, and without a comma.
pub open spec fn plain_combo(c: Seq<char>) -> bool {
    c.len() > 0 && trim(c) == c && !c.contains(',')
}

proof fn lemma_display_parts(keys: Seq<Seq<char>>)
    requires
        forall|i: int| 0 <= i < keys.len() ==> plain_combo(#[trigger] keys[i]),
    ensures
        trimmed_pieces(pieces(join(keys, seq![',', ' ']), Separator::Comma)) == keys,
    decreases keys.len(),
{
    let sep = seq![',', ' '];
    if keys.len() == 0 {
        assert(pieces(Seq::<char>::empty(), Separator::Comma) == seq![Seq::<char>::empty()]);
        assert(crate::text::trim_start(Seq::<char>::empty()) == Seq::<char>::empty());
        assert(crate::text::trim_end(Seq::<char>::empty()) == Seq::<char>::empty());
        assert(trim(Seq::<char>::empty()) =~= Seq::<char>::empty());
        assert(seq![Seq::<char>::empty()].drop_last() =~= Seq::<Seq<char>>::empty());
        assert(seq![Seq::<char>::empty()].last() == Seq::<char>::empty());
        assert(trimmed_pieces(Seq::<Seq<char>>::empty()) == Seq::<Seq<char>>::empty());
        assert(trimmed_pieces(seq![Seq::<char>::empty()]) == Seq::<Seq<char>>::empty());
        assert(keys =~= Seq::<Seq<char>>::empty());
    } else {
        let a = keys.last();
        let rest = keys.drop_last();
        assert(plain_combo(keys[keys.len() - 1]));
        assert forall|i: int| 0 <= i < a.len() implies !is_separator(Separator::Comma, #[trigger] a[i]) by {
            if a[i] == ',' {
                assert(a.contains(','));
            }
        }
        if rest.len() == 0 {
            assert(join(keys, sep) == a);
            lemma_pieces_plain_suffix(Seq::<char>::empty(), a, Separator::Comma);
            assert(Seq::<char>::empty() + a =~= a);
            assert(pieces(Seq::<char>::empty(), Separator::Comma) == seq![Seq::<char>::empty()]);
            assert(seq![Seq::<char>::empty()].update(0, Seq::<char>::empty() + a) =~= seq![a]);
            assert(seq![a].drop_last() =~= Seq::<Seq<char>>::empty());
            assert(trimmed_pieces(seq![a]) == trimmed_pieces(Seq::<Seq<char>>::empty()).push(trim(a)));
            assert(Seq::<Seq<char>>::empty().push(a) =~= seq![a]);
            assert(keys =~= seq![a]);
        } else {
            assert forall|i: int| 0 <= i < rest.len() implies plain_combo(#[trigger] rest[i]) by {
                assert(rest[i] == keys[i]);
            }
            lemma_display_parts(rest);
            let j = join(rest, sep);
            assert(join(keys, sep) == j + sep + a);
            let t = seq![' '] + a;
            assert forall|i: int| 0 <= i < t.len() implies !is_separator(Separator::Comma, #[trigger] t[i]) by {
                if i > 0 {
                    assert(t[i] == a[i - 1]);
                }
            }
            assert(j + sep + a =~= j.push(',') + t);
            lemma_pieces_plain_suffix(j.push(','), t, Separator::Comma);
            assert(j.push(',').drop_last() =~= j);
            let pj = pieces(j, Separator::Comma);
            assert(pieces(j.push(','), Separator::Comma) == pj.push(Seq::<char>::empty()));
            assert(pj.push(Seq::<char>::empty()).update(pj.len() as int, pj.push(Seq::<char>::empty()).last() + t)
                =~= pj.push(t));
            lemma_trim_after_space(a);
            assert(pj.push(t).drop_last() =~= pj);
            assert(trim(t) == a);
            assert(trimmed_pieces(pj.push(t)) == trimmed_pieces(pj).push(trim(t)));
            assert(keys =~= rest.push(a));
        }
    }
}

/// Reading back the display form of a key list gives the list: splitting
/// `combo_display`'s text into its comma-separated, trimmed, non-empty parts
/// yields the combinations, when each is plain.
pub proof fn law_display_parts_round_trip(keys: Seq<Seq<char>>)
    requires
        forall|i: int| 0 <= i < keys.len() ==> plain_combo(#[trigger] keys[i]),
    ensures
        trimmed_pieces(pieces(join(keys, ", "@), Separator::Comma)) == keys,
{
    reveal_strlit(", ");
    assert(", "@ =~= seq![',', ' ']);
    lemma_display_parts(keys);
}

/// Parsing parts that each canonicalize to their own text gives back the
/// combinations, when none is listed twice: so a parsed key list, displayed
/// and parsed again, is the same list.
pub proof fn law_canonical_parts_parse_back(keys: Seq<Seq<char>>, parts: Seq<ComboPartView>)
    requires
        parts.len() == keys.len(),
        forall|i: int| 0 <= i < keys.len() ==> #[trigger] parts[i] == (ComboPartView {
            text: keys[i],
            normalized: Some(keys[i]),
        }),
        keys.no_duplicates(),
    ensures
        first_invalid(parts) is None,
        distinct_combos(parts) == keys,
    decreases keys.len(),
{
    if keys.len() > 0 {
        let k = keys.drop_last();
        let p = parts.drop_last();
        assert forall|i: int| 0 <= i < k.len() implies #[trigger] p[i] == (ComboPartView {
            text: k[i],
            normalized: Some(k[i]),
        }) by {
            assert(p[i] == parts[i]);
        }
        law_canonical_parts_parse_back(k, p);
        assert(parts[parts.len() - 1] == parts.last());
        assert(!k.contains(keys.last())) by {
            if k.contains(keys.last()) {
                let i = choose|i: int| 0 <= i < k.len() && k[i] == keys.last();
                assert(keys[i] == keys[keys.len() - 1]);
            }
        }
        assert(keys =~= k.push(keys.last()));
    }
}

proof fn lemma_distinct_combos_unique(ps: Seq<ComboPartView>)
    ensures
        distinct_combos(ps).no_duplicates(),
    decreases ps.len(),
{
    if ps.len() > 0 {
        lemma_distinct_combos_unique(ps.drop_last());
        let before = distinct_combos(ps.drop_last());
        match ps.last().normalized {
            Some(c) => if !before.contains(c) {
                let after = before.push(c);
                assert forall|i: int, j: int| 0 <= i < after.len() && 0 <= j < after.len() && i != j implies after[i]
                    != after[j] by {
                    if i == before.len() as int {
                        assert(after[j] == before[j]);
                    } else if j == before.len() as int {
                        assert(after[i] == before[i]);
                    }
                }
            },
            None => {},
        }
    }
}

/// A parsed key list reads back: when the combinations that
/// `parse_combo_list` returned are plain, displaying them, splitting the
/// text and parsing parts that canonicalize to themselves returns the same
/// list.
pub proof fn law_parsed_list_reads_back(ps: Seq<ComboPartView>, again: Seq<ComboPartView>)
    requires
        first_invalid(ps) is None,
        forall|i: int| 0 <= i < distinct_combos(ps).len() ==> plain_combo(#[trigger] distinct_combos(ps)[i]),
        again == trimmed_pieces(pieces(join(distinct_combos(ps), ", "@), Separator::Comma)).map_values(
            |t: Seq<char>| ComboPartView { text: t, normalized: Some(t) },
        ),
    ensures
        first_invalid(again) is None,
        distinct_combos(again) == distinct_combos(ps),
{
    let v = distinct_combos(ps);
    law_display_parts_round_trip(v);
    lemma_distinct_combos_unique(ps);
    law_canonical_parts_parse_back(v, again);
}

/// A combination assembled from its canonical keystrokes: none when a
/// keystroke failed to parse or there is no keystroke, else the keystrokes
/// joined by single spaces.
pub open spec fn spec_assemble_combo(strokes: Seq<Option<Seq<char>>>) -> Option<Seq<char>> {
    if strokes.len() == 0 || exists|i: int| 0 <= i < strokes.len() && strokes[i] is None {
        None
    } else {
        Some(join(strokes.map_values(|s: Option<Seq<char>>| s->0), " "@))
    }
}

pub open spec fn opt_views(v: Seq<Option<String>>) -> Seq<Option<Seq<char>>> {
    v.map_values(|s: Option<String>| crate::text::opt_view(s))
}

/// Assemble one combination from the canonical forms of its keystrokes
/// (`None` for a keystroke that failed to parse).
pub fn assemble_combo(strokes: &Vec<Option<String>>) -> (r: Option<String>)
    ensures
        crate::text::opt_view(r) == spec_assemble_combo(opt_views(strokes@)),
{
    let mut parts: Vec<String> = Vec::new();
    for i in 0..strokes.len()
        invariant
            parts@.len() == i,
            forall|j: int| 0 <= j < i ==> strokes@[j] is Some,
            forall|j: int| 0 <= j < i ==> #[trigger] parts@[j]@ == strokes@[j]->0@,
    {
        match &strokes[i] {
            Some(s) => parts.push(s.clone()),
            None => {
                assert(opt_views(strokes@)[i as int] is None);
                return None;
            },
        }
    }
    if parts.len() == 0 {
        return None;
    }
    let joined = join_strings(&parts, " ");
    assert(views(parts@) =~= opt_views(strokes@).map_values(|s: Option<Seq<char>>| s->0));
    Some(joined)
}

/// A combination that the keystroke parser rejected.
#[derive(Clone, Debug, PartialEq, Eq)]
pub struct InvalidCombo(pub String);

/// One part of a key list and its canonical form (`None` when it failed to
/// parse).
pub struct ComboPart {
    pub text: String,
    pub normalized: Option<String>,
}

/// Mathematical form of a key-list part.
pub struct ComboPartView {
    pub text: Seq<char>,
    pub normalized: Option<Seq<char>>,
}

impl View for ComboPart {
    type V = ComboPartView;

    open spec fn view(&self) -> ComboPartView {
        ComboPartView { text: self.text@, normalized: crate::text::opt_view(self.normalized) }
    }
}

pub open spec fn part_views(v: Seq<ComboPart>) -> Seq<ComboPartView> {
    v.map_values(|p: ComboPart| p@)
}

/// The text of the first part that failed to parse.
pub open spec fn first_invalid(ps: Seq<ComboPartView>) -> Option<Seq<char>>
    decreases ps.len(),
{
    if ps.len() == 0 {
        None
    } else {
        match first_invalid(ps.drop_last()) {
            Some(t) => Some(t),
            None => if ps.last().normalized is None {
                Some(ps.last().text)
            } else {
                None
            },
        }
    }
}

/// The canonical combinations of a list, each kept at its first occurrence.
pub open spec fn distinct_combos(ps: Seq<ComboPartView>) -> Seq<Seq<char>>
    decreases ps.len(),
{
    if ps.len() == 0 {
        seq![]
    } else {
        let before = distinct_combos(ps.drop_last());
        match ps.last().normalized {
            Some(c) => if before.contains(c) {
                before
            } else {
                before.push(c)
            },
            None => before,
        }
    }
}

/// Whether a list of strings holds `c`.
fn contains_string(v: &Vec<String>, c: &String) -> (r: bool)
    ensures
        r == views(v@).contains(c@),
{
    for i in 0..v.len()
        invariant
            forall|j: int| 0 <= j < i ==> v@[j]@ != c@,
    {
        if v[i].eq(c) {
            assert(views(v@)[i as int] == c@);
            return true;
        }
    }
    assert forall|j: int| 0 <= j < views(v@).len() implies views(v@)[j] != c@ by {
        assert(views(v@)[j] == v@[j]@);
    }
    false
}

/// The combinations of a key list, in order and without repeats, or the
/// first part that failed to parse.
pub fn parse_combo_list(parts: &Vec<ComboPart>) -> (r: Result<Vec<String>, InvalidCombo>)
    ensures
        match first_invalid(part_views(parts@)) {
            Some(t) => r matches Err(InvalidCombo(e)) && e@ == t,
            None => r matches Ok(v) && views(v@) == distinct_combos(part_views(parts@)),
        },
{
    let ghost ps = part_views(parts@);
    let mut combos: Vec<String> = Vec::new();
    for i in 0..parts.len()
        invariant
            ps == part_views(parts@),
            first_invalid(ps.take(i as int)) is None,
            views(combos@) == distinct_combos(ps.take(i as int)),
    {
        assert(ps.take(i + 1).drop_last() =~= ps.take(i as int));
        assert(ps.take(i + 1).last() == parts@[i as int]@);
        match &parts[i].normalized {
            Some(c) => {
                if !contains_string(&combos, c) {
                    let ghost before = combos@;
                    combos.push(c.clone());
                    assert(views(combos@) =~= views(before).push(c@));
                }
            },
            None => {
                let e = parts[i].text.clone();
                proof {
                    lemma_first_invalid_extends(ps, i as int + 1);
                }
                return Err(InvalidCombo(e));
            },
        }
    }
    assert(ps.take(parts@.len() as int) =~= ps);
    Ok(combos)
}

/// Once a prefix holds an invalid part, every longer prefix reports the same.
proof fn lemma_first_invalid_extends(ps: Seq<ComboPartView>, k: int)
    requires
        0 <= k <= ps.len(),
        first_invalid(ps.take(k)) is Some,
    ensures
        first_invalid(ps) == first_invalid(ps.take(k)),
    decreases ps.len() - k,
{
    if k == ps.len() {
        assert(ps.take(k) =~= ps);
    } else {
        assert(ps.take(k + 1).drop_last() =~= ps.take(k));
        lemma_first_invalid_extends(ps, k + 1);
    }
}

/// One command's effective shortcut keys.
pub struct ResolvedShortcut {
    pub command: String,
    pub keys: Vec<String>,
}

/// Mathematical form of a resolved shortcut.
pub struct ShortcutView {
    pub command: Seq<char>,
    pub keys: Seq<Seq<char>>,
}

impl View for ResolvedShortcut {
    type V = ShortcutView;

    open spec fn view(&self) -> ShortcutView {
        ShortcutView { command: self.command@, keys: views(self.keys@) }
    }
}

pub open spec fn shortcut_views(v: Seq<ResolvedShortcut>) -> Seq<ShortcutView> {
    v.map_values(|r: ResolvedShortcut| r@)
}

/// The command that owns combination `c`: the first command listing it.
pub open spec fn owner_of(rs: Seq<ShortcutView>, c: Seq<char>) -> Option<Seq<char>>
    decreases rs.len(),
{
    if rs.len() == 0 {
        None
    } else {
        match owner_of(rs.drop_last(), c) {
            Some(x) => Some(x),
            None => if rs.last().keys.contains(c) {
                Some(rs.last().command)
            } else {
                None
            },
        }
    }
}

pub open spec fn pair_views(v: Seq<(String, String)>) -> Seq<(Seq<char>, Seq<char>)> {
    v.map_values(|p: (String, String)| (p.0@, p.1@))
}

/// `ps` lists each owned combination once, with its owner, and nothing else.
pub open spec fn owner_table(ps: Seq<(Seq<char>, Seq<char>)>, rs: Seq<ShortcutView>) -> bool {
    &&& forall|a: int, b: int| 0 <= a < b < ps.len() ==> #[trigger] ps[a].0 != #[trigger] ps[b].0
    &&& forall|k: int| 0 <= k < ps.len() ==> owner_of(rs, #[trigger] ps[k].0) == Some(ps[k].1)
    &&& forall|c: Seq<char>| #[trigger] owner_of(rs, c) is Some ==> exists|k: int| 0 <= k < ps.len() && #[trigger] ps[k].0 == c
}

/// The owner of `c` after the first `i` commands and the first `j` keys of
/// command `i`.
pub open spec fn partial_owner(rs: Seq<ShortcutView>, i: int, j: int, c: Seq<char>) -> Option<Seq<char>> {
    match owner_of(rs.take(i), c) {
        Some(x) => Some(x),
        None => if rs[i].keys.take(j).contains(c) {
            Some(rs[i].command)
        } else {
            None
        },
    }
}

pub open spec fn partial_table(ps: Seq<(Seq<char>, Seq<char>)>, rs: Seq<ShortcutView>, i: int, j: int) -> bool {
    &&& forall|a: int, b: int| 0 <= a < b < ps.len() ==> #[trigger] ps[a].0 != #[trigger] ps[b].0
    &&& forall|k: int| 0 <= k < ps.len() ==> partial_owner(rs, i, j, #[trigger] ps[k].0) == Some(ps[k].1)
    &&& forall|c: Seq<char>| #[trigger] partial_owner(rs, i, j, c) is Some ==> exists|k: int| 0 <= k < ps.len() && #[trigger] ps[k].0 == c
}

proof fn lemma_take_push_contains(s: Seq<Seq<char>>, j: int, c: Seq<char>)
    requires
        0 <= j < s.len(),
    ensures
        s.take(j + 1).contains(c) <==> (s.take(j).contains(c) || s[j] == c),
{
    let t1 = s.take(j + 1);
    let t0 = s.take(j);
    assert(t1 =~= t0.push(s[j]));
    if t1.contains(c) {
        let k = choose|k: int| 0 <= k < t1.len() && #[trigger] t1[k] == c;
        if k < j {
            assert(t0[k] == c);
        }
    }
    if t0.contains(c) {
        let k = choose|k: int| 0 <= k < t0.len() && #[trigger] t0[k] == c;
        assert(t1[k] == c);
    }
    if s[j] == c {
        assert(t1[j] == c);
    }
}

proof fn lemma_partial_step(rs: Seq<ShortcutView>, i: int, j: int, c: Seq<char>)
    requires
        0 <= i < rs.len(),
        0 <= j < rs[i].keys.len(),
    ensures
        partial_owner(rs, i, j + 1, c) == if partial_owner(rs, i, j, c) is Some {
            partial_owner(rs, i, j, c)
        } else if rs[i].keys[j] == c {
            Some(rs[i].command)
        } else {
            None
        },
{
    lemma_take_push_contains(rs[i].keys, j, c);
}

proof fn lemma_partial_start(rs: Seq<ShortcutView>, i: int, c: Seq<char>)
    requires
        0 <= i <= rs.len(),
    ensures
        partial_owner(rs, i, 0, c) == owner_of(rs.take(i), c),
{
    assert(rs[i].keys.take(0) =~= Seq::<Seq<char>>::empty());
}

proof fn lemma_partial_end(rs: Seq<ShortcutView>, i: int, c: Seq<char>)
    requires
        0 <= i < rs.len(),
    ensures
        partial_owner(rs, i, rs[i].keys.len() as int, c) == owner_of(rs.take(i + 1), c),
{
    assert(rs.take(i + 1).drop_last() =~= rs.take(i));
    assert(rs.take(i + 1).last() == rs[i]);
    assert(rs[i].keys.take(rs[i].keys.len() as int) =~= rs[i].keys);
}

/// Whether the table lists combination `c`.
fn table_has(ps: &Vec<(String, String)>, c: &String) -> (r: bool)
    ensures
        r == exists|k: int| 0 <= k < ps@.len() && #[trigger] pair_views(ps@)[k].0 == c@,
{
    for i in 0..ps.len()
        invariant
            forall|k: int| 0 <= k < i ==> pair_views(ps@)[k].0 != c@,
    {
        if ps[i].0.eq(c) {
            assert(pair_views(ps@)[i as int].0 == c@);
            return true;
        }
    }
    false
}

/// Each combination with the command that owns it: the first command that
/// lists it. Every combination appears once.
pub fn owner_map(resolved: &Vec<ResolvedShortcut>) -> (r: Vec<(String, String)>)
    ensures
        owner_table(pair_views(r@), shortcut_views(resolved@)),
{
    let ghost rs = shortcut_views(resolved@);
    let mut map: Vec<(String, String)> = Vec::new();
    proof {
        assert forall|c: Seq<char>| #[trigger] partial_owner(rs, 0, 0, c) is Some implies false by {
            lemma_partial_start(rs, 0, c);
        }
    }
    for i in 0..resolved.len()
        invariant
            rs == shortcut_views(resolved@),
            partial_table(pair_views(map@), rs, i as int, 0),
    {
        let shortcut = &resolved[i];
        assert(rs[i as int] == shortcut@);
        for j in 0..shortcut.keys.len()
            invariant
                rs == shortcut_views(resolved@),
                0 <= i < resolved@.len(),
                rs[i as int] == shortcut@,
                partial_table(pair_views(map@), rs, i as int, j as int),
        {
            let combo = &shortcut.keys[j];
            assert(rs[i as int].keys[j as int] == combo@);
            let ghost before = pair_views(map@);
            if !table_has(&map, combo) {
                map.push((combo.clone(), shortcut.command.clone()));
                let ghost after = pair_views(map@);
                assert(after =~= before.push((combo@, shortcut.command@)));
                proof {
                    assert forall|k: int| 0 <= k < after.len() implies partial_owner(
                        rs,
                        i as int,
                        j + 1,
                        #[trigger] after[k].0,
                    ) == Some(after[k].1) by {
                        lemma_partial_step(rs, i as int, j as int, after[k].0);
                        if k < before.len() {
                            assert(after[k] == before[k]);
                        } else {
                            if partial_owner(rs, i as int, j as int, combo@) is Some {
                                assert(before[choose|m: int| 0 <= m < before.len() && #[trigger] before[m].0 == combo@].0 == combo@);
                            }
                        }
                    }
                    assert forall|c: Seq<char>| #[trigger] partial_owner(rs, i as int, j + 1, c) is Some implies exists|k: int|
                        0 <= k < after.len() && #[trigger] after[k].0 == c by {
                        lemma_partial_step(rs, i as int, j as int, c);
                        if partial_owner(rs, i as int, j as int, c) is Some {
                            let m = choose|m: int| 0 <= m < before.len() && #[trigger] before[m].0 == c;
                            assert(after[m] == before[m]);
                        } else {
                            assert(after[before.len() as int].0 == c);
                        }
                    }
                    assert forall|a: int, b: int| 0 <= a < b < after.len() implies #[trigger] after[a].0
                        != #[trigger] after[b].0 by {
                        if b == before.len() {
                            assert(after[a] == before[a]);
                        } else {
                            assert(after[a] == before[a]);
                            assert(after[b] == before[b]);
                        }
                    }
                }
            } else {
                proof {
                    let m = choose|m: int| 0 <= m < before.len() && #[trigger] before[m].0 == combo@;
                    lemma_partial_step(rs, i as int, j as int, combo@);
                    assert forall|k: int| 0 <= k < before.len() implies partial_owner(
                        rs,
                        i as int,
                        j + 1,
                        #[trigger] before[k].0,
                    ) == Some(before[k].1) by {
                        lemma_partial_step(rs, i as int, j as int, before[k].0);
                    }
                    assert forall|c: Seq<char>| #[trigger] partial_owner(rs, i as int, j + 1, c) is Some implies exists|k: int|
                        0 <= k < before.len() && #[trigger] before[k].0 == c by {
                        lemma_partial_step(rs, i as int, j as int, c);
                        if partial_owner(rs, i as int, j as int, c) is None {
                            assert(before[m].0 == c);
                        }
                    }
                }
            }
        }
        proof {
            let ps = pair_views(map@);
            assert forall|k: int| 0 <= k < ps.len() implies partial_owner(
                rs,
                i + 1,
                0,
                #[trigger] ps[k].0,
            ) == Some(ps[k].1) by {
                lemma_partial_end(rs, i as int, ps[k].0);
                lemma_partial_start(rs, i + 1, ps[k].0);
            }
            assert forall|c: Seq<char>| #[trigger] partial_owner(rs, i + 1, 0, c) is Some implies exists|k: int|
                0 <= k < ps.len() && #[trigger] ps[k].0 == c by {
                lemma_partial_end(rs, i as int, c);
                lemma_partial_start(rs, i + 1, c);
            }
        }
    }
    proof {
        let ps = pair_views(map@);
        assert(rs.take(rs.len() as int) =~= rs);
        assert forall|k: int| 0 <= k < ps.len() implies owner_of(rs, #[trigger] ps[k].0) == Some(ps[k].1) by {
            lemma_partial_start(rs, rs.len() as int, ps[k].0);
        }
        assert forall|c: Seq<char>| #[trigger] owner_of(rs, c) is Some implies exists|k: int|
            0 <= k < ps.len() && #[trigger] ps[k].0 == c by {
            lemma_partial_start(rs, rs.len() as int, c);
        }
    }
    map
}

/// One change to the shared keymap.
pub enum BindingChange {
    /// Bind the suppressing action to `combo`, hiding older bindings.
    Suppress { combo: String },
    /// Bind `combo` to `command`'s action.
    Bind { combo: String, command: String },
}

/// Mathematical form of a change: the combination and what it now runs
/// (`None` for suppressed).
pub struct ChangeView {
    pub combo: Seq<char>,
    pub command: Option<Seq<char>>,
}

impl View for BindingChange {
    type V = ChangeView;

    open spec fn view(&self) -> ChangeView {
        match self {
            BindingChange::Suppress { combo } => ChangeView { combo: combo@, command: None },
            BindingChange::Bind { combo, command } => ChangeView {
                combo: combo@,
                command: Some(command@),
            },
        }
    }
}

pub open spec fn change_views(v: Seq<BindingChange>) -> Seq<ChangeView> {
    v.map_values(|c: BindingChange| c@)
}

/// What combination `c` runs once `changes` are applied, in order, on top of
/// the bindings of `previous`: the last change to `c`, else its old owner.
pub open spec fn effective(changes: Seq<ChangeView>, previous: Seq<ShortcutView>, c: Seq<char>) -> Option<
    Seq<char>,
>
    decreases changes.len(),
{
    if changes.len() == 0 {
        owner_of(previous, c)
    } else if changes.last().combo == c {
        changes.last().command
    } else {
        effective(changes.drop_last(), previous, c)
    }
}

/// The owner recorded for `c` in a table, found by search.
fn table_lookup(ps: &Vec<(String, String)>, c: &String, Ghost(rs): Ghost<Seq<ShortcutView>>) -> (r: Option<
    String,
>)
    requires
        owner_table(pair_views(ps@), rs),
    ensures
        crate::text::opt_view(r) == owner_of(rs, c@),
{
    for i in 0..ps.len()
        invariant
            owner_table(pair_views(ps@), rs),
            forall|k: int| 0 <= k < i ==> pair_views(ps@)[k].0 != c@,
    {
        if ps[i].0.eq(c) {
            assert(pair_views(ps@)[i as int].0 == c@);
            return Some(ps[i].1.clone());
        }
    }
    proof {
        if owner_of(rs, c@) is Some {
            let k = choose|k: int| 0 <= k < pair_views(ps@).len() && #[trigger] pair_views(ps@)[k].0 == c@;
        }
    }
    None
}

/// Whether an owned string equals an optional owned string.
fn same_owner(a: &Option<String>, b: &String) -> (r: bool)
    ensures
        r == (crate::text::opt_view(*a) == Some(b@)),
{
    match a {
        Some(x) => x.eq(b),
        None => false,
    }
}

/// Whether one of the first `n` entries of a table lists `c`.
pub open spec fn listed(ps: Seq<(Seq<char>, Seq<char>)>, n: int, c: Seq<char>) -> bool {
    exists|m: int| 0 <= m < n && #[trigger] ps[m].0 == c
}

proof fn lemma_listed_step(ps: Seq<(Seq<char>, Seq<char>)>, i: int, c: Seq<char>)
    requires
        0 <= i < ps.len(),
    ensures
        listed(ps, i + 1, c) <==> (listed(ps, i, c) || ps[i].0 == c),
{
    if listed(ps, i + 1, c) {
        let m = choose|m: int| 0 <= m < i + 1 && #[trigger] ps[m].0 == c;
        if m < i {
            assert(listed(ps, i, c));
        }
    }
    if listed(ps, i, c) {
        let m = choose|m: int| 0 <= m < i && #[trigger] ps[m].0 == c;
        assert(0 <= m < i + 1 && ps[m].0 == c);
    }
    if ps[i].0 == c {
        assert(0 <= i < i + 1 && ps[i].0 == c);
    }
}

/// What the suppressing pass leaves for `c` after the first `i` entries of
/// the old table.
pub open spec fn after_suppress(
    pm: Seq<(Seq<char>, Seq<char>)>,
    i: int,
    prev: Seq<ShortcutView>,
    nxt: Seq<ShortcutView>,
    c: Seq<char>,
) -> Option<Seq<char>> {
    if listed(pm, i, c) && owner_of(nxt, c) != owner_of(prev, c) {
        None
    } else {
        owner_of(prev, c)
    }
}

/// What the binding pass leaves for `c` after the first `i` entries of the
/// new table.
pub open spec fn after_bind(
    nm: Seq<(Seq<char>, Seq<char>)>,
    i: int,
    prev: Seq<ShortcutView>,
    nxt: Seq<ShortcutView>,
    c: Seq<char>,
) -> Option<Seq<char>> {
    if listed(nm, i, c) && owner_of(prev, c) != owner_of(nxt, c) {
        owner_of(nxt, c)
    } else if owner_of(nxt, c) != owner_of(prev, c) {
        None
    } else {
        owner_of(prev, c)
    }
}

/// A change is needed: it alters what its combination runs, and a binding
/// binds the combination's new owner.
pub open spec fn change_needed(ch: ChangeView, prev: Seq<ShortcutView>, nxt: Seq<ShortcutView>) -> bool {
    &&& ch.command != owner_of(prev, ch.combo)
    &&& ch.command is Some ==> ch.command == owner_of(nxt, ch.combo)
    &&& ch.command is None ==> owner_of(nxt, ch.combo) != owner_of(prev, ch.combo)
}

/// Whether `changes` hold a change of `combo` to `command`.
pub open spec fn has_change(changes: Seq<ChangeView>, combo: Seq<char>, command: Option<Seq<char>>) -> bool {
    exists|k: int| 0 <= k < changes.len() && #[trigger] changes[k] == (ChangeView { combo, command })
}

proof fn lemma_has_change_push(v: Seq<ChangeView>, x: ChangeView, combo: Seq<char>, command: Option<Seq<char>>)
    requires
        has_change(v, combo, command) || (x.combo == combo && x.command == command),
    ensures
        has_change(v.push(x), combo, command),
{
    if has_change(v, combo, command) {
        let k = choose|k: int| 0 <= k < v.len() && #[trigger] v[k] == (ChangeView { combo, command });
        assert(v.push(x)[k] == v[k]);
    } else {
        assert(v.push(x)[v.len() as int] == x);
    }
}

/// The minimal delta from the bindings of `previous` to those of `next`:
/// first suppress every combination whose owner changed or vanished, then
/// bind every combination whose owner is new. Applied in order on top of the
/// previous bindings, it leaves each combination running exactly its owner
/// in `next`, and each change alters what its combination runs.
pub fn keymap_diff(previous: &Vec<ResolvedShortcut>, next: &Vec<ResolvedShortcut>) -> (r: Vec<
    BindingChange,
>)
    ensures
        forall|c: Seq<char>|
            #[trigger] effective(change_views(r@), shortcut_views(previous@), c) == owner_of(
                shortcut_views(next@),
                c,
            ),
        forall|k: int|
            0 <= k < r@.len() ==> change_needed(
                #[trigger] change_views(r@)[k],
                shortcut_views(previous@),
                shortcut_views(next@),
            ),
        shortcut_views(previous@) == shortcut_views(next@) ==> r@.len() == 0,
        forall|c: Seq<char>|
            owner_of(shortcut_views(previous@), c) is Some && owner_of(shortcut_views(next@), c) != owner_of(
                shortcut_views(previous@),
                c,
            ) ==> #[trigger] has_change(change_views(r@), c, None),
        forall|c: Seq<char>|
            owner_of(shortcut_views(next@), c) is Some && owner_of(shortcut_views(next@), c) != owner_of(
                shortcut_views(previous@),
                c,
            ) ==> #[trigger] has_change(change_views(r@), c, owner_of(shortcut_views(next@), c)),
        forall|i: int, j: int|
            0 <= i < j < r@.len() && (#[trigger] change_views(r@)[j]).command is None ==> (
            #[trigger] change_views(r@)[i]).command is None,
{
    let ghost prev = shortcut_views(previous@);
    let ghost nxt = shortcut_views(next@);
    let previous_map = owner_map(previous);
    let next_map = owner_map(next);
    let ghost pm = pair_views(previous_map@);
    let ghost nm = pair_views(next_map@);
    let mut out: Vec<BindingChange> = Vec::new();
    for i in 0..previous_map.len()
        invariant
            pm == pair_views(previous_map@),
            nm == pair_views(next_map@),
            prev == shortcut_views(previous@),
            nxt == shortcut_views(next@),
            owner_table(pm, prev),
            owner_table(nm, nxt),
            forall|c: Seq<char>|
                #[trigger] effective(change_views(out@), prev, c) == after_suppress(pm, i as int, prev, nxt, c),
            forall|k: int| 0 <= k < out@.len() ==> change_needed(#[trigger] change_views(out@)[k], prev, nxt),
            forall|k: int| 0 <= k < out@.len() ==> (#[trigger] change_views(out@)[k]).command is None,
            forall|c: Seq<char>|
                listed(pm, i as int, c) && owner_of(nxt, c) != owner_of(prev, c) ==> #[trigger] has_change(
                    change_views(out@),
                    c,
                    None,
                ),
    {
        let combo = &previous_map[i].0;
        let command = &previous_map[i].1;
        assert(pm[i as int] == (combo@, command@));
        assert(owner_of(prev, pm[i as int].0) == Some(pm[i as int].1));
        let now = table_lookup(&next_map, combo, Ghost(nxt));
        let ghost before = change_views(out@);
        if !same_owner(&now, command) {
            out.push(BindingChange::Suppress { combo: combo.clone() });
            let ghost after = change_views(out@);
            assert(after =~= before.push(ChangeView { combo: combo@, command: None }));
            assert forall|c: Seq<char>| #[trigger] effective(after, prev, c) == after_suppress(
                pm,
                i + 1,
                prev,
                nxt,
                c,
            ) by {
                lemma_listed_step(pm, i as int, c);
                assert(after.drop_last() =~= before);
                if c == combo@ {
                    assert(effective(after, prev, c) == None::<Seq<char>>);
                    assert(listed(pm, i + 1, c));
                    assert(owner_of(prev, c) == Some(command@));
                    assert(owner_of(nxt, c) != owner_of(prev, c));
                } else {
                    assert(effective(after, prev, c) == effective(before, prev, c));
                }
            }
            assert forall|k: int| 0 <= k < after.len() implies change_needed(#[trigger] after[k], prev, nxt) by {
                if k < before.len() {
                    assert(after[k] == before[k]);
                }
            }
            assert forall|k: int| 0 <= k < after.len() implies (#[trigger] after[k]).command is None by {
                if k < before.len() {
                    assert(after[k] == before[k]);
                }
            }
            assert forall|c: Seq<char>|
                listed(pm, i + 1, c) && owner_of(nxt, c) != owner_of(prev, c) implies #[trigger] has_change(
                after,
                c,
                None,
            ) by {
                lemma_listed_step(pm, i as int, c);
                lemma_has_change_push(before, ChangeView { combo: combo@, command: None }, c, None);
            }
        } else {
            assert forall|c: Seq<char>|
                listed(pm, i + 1, c) && owner_of(nxt, c) != owner_of(prev, c) implies #[trigger] has_change(
                before,
                c,
                None,
            ) by {
                lemma_listed_step(pm, i as int, c);
                if c == combo@ {
                    assert(owner_of(prev, c) == Some(command@));
                }
            }
            assert forall|c: Seq<char>| #[trigger] effective(before, prev, c) == after_suppress(
                pm,
                i + 1,
                prev,
                nxt,
                c,
            ) by {
                lemma_listed_step(pm, i as int, c);
            }
        }
    }
    proof {
        assert forall|c: Seq<char>| #[trigger] effective(change_views(out@), prev, c) == after_bind(
            nm,
            0,
            prev,
            nxt,
            c,
        ) by {
            if owner_of(prev, c) is Some {
                let m = choose|m: int| 0 <= m < pm.len() && #[trigger] pm[m].0 == c;
                assert(listed(pm, pm.len() as int, c));
            }
        }
    }
    let ghost suppressed = change_views(out@);
    proof {
        assert forall|c: Seq<char>|
            owner_of(prev, c) is Some && owner_of(nxt, c) != owner_of(prev, c) implies #[trigger] has_change(
            suppressed,
            c,
            None,
        ) by {
            let m = choose|m: int| 0 <= m < pm.len() && #[trigger] pm[m].0 == c;
            assert(listed(pm, pm.len() as int, c));
        }
    }
    for i in 0..next_map.len()
        invariant
            suppressed.len() <= out@.len(),
            forall|k: int| 0 <= k < suppressed.len() ==> #[trigger] change_views(out@)[k] == suppressed[k],
            forall|k: int| 0 <= k < suppressed.len() ==> (#[trigger] suppressed[k]).command is None,
            forall|k: int| suppressed.len() <= k < out@.len() ==> (#[trigger] change_views(out@)[k]).command is Some,
            forall|c: Seq<char>|
                owner_of(prev, c) is Some && owner_of(nxt, c) != owner_of(prev, c) ==> #[trigger] has_change(
                    suppressed,
                    c,
                    None,
                ),
            forall|c: Seq<char>|
                listed(nm, i as int, c) && owner_of(nxt, c) != owner_of(prev, c) ==> #[trigger] has_change(
                    change_views(out@),
                    c,
                    owner_of(nxt, c),
                ),
            pm == pair_views(previous_map@),
            nm == pair_views(next_map@),
            prev == shortcut_views(previous@),
            nxt == shortcut_views(next@),
            owner_table(pm, prev),
            owner_table(nm, nxt),
            forall|c: Seq<char>|
                #[trigger] effective(change_views(out@), prev, c) == after_bind(nm, i as int, prev, nxt, c),
            forall|k: int| 0 <= k < out@.len() ==> change_needed(#[trigger] change_views(out@)[k], prev, nxt),
    {
        let combo = &next_map[i].0;
        let command = &next_map[i].1;
        assert(nm[i as int] == (combo@, command@));
        assert(owner_of(nxt, nm[i as int].0) == Some(nm[i as int].1));
        let was = table_lookup(&previous_map, combo, Ghost(prev));
        let ghost before = change_views(out@);
        if !same_owner(&was, command) {
            out.push(BindingChange::Bind { combo: combo.clone(), command: command.clone() });
            let ghost after = change_views(out@);
            assert(after =~= before.push(ChangeView { combo: combo@, command: Some(command@) }));
            assert forall|c: Seq<char>| #[trigger] effective(after, prev, c) == after_bind(
                nm,
                i + 1,
                prev,
                nxt,
                c,
            ) by {
                lemma_listed_step(nm, i as int, c);
                assert(after.drop_last() =~= before);
                if c == combo@ {
                    assert(effective(after, prev, c) == Some(command@));
                    assert(listed(nm, i + 1, c));
                    assert(owner_of(nxt, c) == Some(command@));
                    assert(owner_of(prev, c) != owner_of(nxt, c));
                } else {
                    assert(effective(after, prev, c) == effective(before, prev, c));
                }
            }
            assert forall|k: int| 0 <= k < after.len() implies change_needed(#[trigger] after[k], prev, nxt) by {
                if k < before.len() {
                    assert(after[k] == before[k]);
                }
            }
            assert forall|k: int| 0 <= k < suppressed.len() implies #[trigger] after[k] == suppressed[k] by {
                assert(after[k] == before[k]);
            }
            assert forall|k: int| suppressed.len() <= k < after.len() implies (#[trigger] after[k]).command is Some by {
                if k < before.len() {
                    assert(after[k] == before[k]);
                }
            }
            assert forall|c: Seq<char>|
                listed(nm, i + 1, c) && owner_of(nxt, c) != owner_of(prev, c) implies #[trigger] has_change(
                after,
                c,
                owner_of(nxt, c),
            ) by {
                lemma_listed_step(nm, i as int, c);
                lemma_has_change_push(before, ChangeView { combo: combo@, command: Some(command@) }, c, owner_of(nxt, c));
            }
        } else {
            assert forall|c: Seq<char>|
                listed(nm, i + 1, c) && owner_of(nxt, c) != owner_of(prev, c) implies #[trigger] has_change(
                before,
                c,
                owner_of(nxt, c),
            ) by {
                lemma_listed_step(nm, i as int, c);
                if c == combo@ {
                    assert(owner_of(nxt, c) == Some(command@));
                }
            }
            assert forall|c: Seq<char>| #[trigger] effective(before, prev, c) == after_bind(
                nm,
                i + 1,
                prev,
                nxt,
                c,
            ) by {
                lemma_listed_step(nm, i as int, c);
            }
        }
    }
    proof {
        let fin = change_views(out@);
        assert forall|c: Seq<char>|
            owner_of(prev, c) is Some && owner_of(nxt, c) != owner_of(prev, c) implies #[trigger] has_change(
            fin,
            c,
            None,
        ) by {
            assert(has_change(suppressed, c, None));
            let k = choose|k: int|
                0 <= k < suppressed.len() && #[trigger] suppressed[k] == (ChangeView { combo: c, command: None });
            assert(fin[k] == suppressed[k]);
        }
        assert forall|c: Seq<char>|
            owner_of(nxt, c) is Some && owner_of(nxt, c) != owner_of(prev, c) implies #[trigger] has_change(
            fin,
            c,
            owner_of(nxt, c),
        ) by {
            let m = choose|m: int| 0 <= m < nm.len() && #[trigger] nm[m].0 == c;
            assert(listed(nm, nm.len() as int, c));
        }
        assert forall|i: int, j: int|
            0 <= i < j < fin.len() && (#[trigger] fin[j]).command is None implies (#[trigger] fin[i]).command is None by {
            if j >= suppressed.len() {
                assert(fin[j].command is Some);
            }
            assert(fin[i] == suppressed[i]);
        }
        if prev == nxt && out@.len() > 0 {
            assert(change_needed(change_views(out@)[0], prev, nxt));
        }
        assert forall|c: Seq<char>| #[trigger] effective(change_views(out@), prev, c) == owner_of(nxt, c) by {
            if owner_of(nxt, c) is Some {
                let m = choose|m: int| 0 <= m < nm.len() && #[trigger] nm[m].0 == c;
                assert(listed(nm, nm.len() as int, c));
            }
        }
    }
    out
}

/// The keys of the first shortcut of `command`, or none.
pub open spec fn spec_keys_of(rs: Seq<ShortcutView>, command: Seq<char>) -> Seq<Seq<char>>
    decreases rs.len(),
{
    if rs.len() == 0 {
        seq![]
    } else if rs[0].command == command {
        rs[0].keys
    } else {
        spec_keys_of(rs.skip(1), command)
    }
}

/// The effective keys of one command (already canonical).
pub fn resolved_keys(resolved: &Vec<ResolvedShortcut>, command: &str) -> (r: Vec<String>)
    ensures
        views(r@) == spec_keys_of(shortcut_views(resolved@), command@),
{
    let ghost rs = shortcut_views(resolved@);
    assert(rs.skip(0) =~= rs);
    for i in 0..resolved.len()
        invariant
            rs == shortcut_views(resolved@),
            spec_keys_of(rs, command@) == spec_keys_of(rs.skip(i as int), command@),
    {
        assert(rs.skip(i as int)[0] == resolved@[i as int]@);
        assert(rs.skip(i as int).skip(1) =~= rs.skip(i + 1));
        if str_eq(resolved[i].command.as_str(), command) {
            return crate::text::clone_strings(&resolved[i].keys);
        }
    }
    Vec::new()
}

/// The effective keys of one command in display form.
pub fn resolved_display(resolved: &Vec<ResolvedShortcut>, command: &str) -> (r: String)
    ensures
        r@ == join(spec_keys_of(shortcut_views(resolved@), command@), ", "@),
{
    combo_display(&resolved_keys(resolved, command))
}

} // verus!
