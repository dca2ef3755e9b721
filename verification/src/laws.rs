//! Properties that hold across the library's operations, stated over the
//! same models as the operations' contracts and proved from them.
use vstd::prelude::*;
use crate::focus::{elapsed, focus_restarted, move_restarted, FocusClock, FocusView};
use crate::focus_events::{
    after_focus_event, focus_follow_up, focus_recorded, hide_due, kind_of, restore_target, FocusFollowUp,
    WindowKind,
};
use crate::log::{
    entry_matches, matching_entries, append_trimmed, effective_size, first_n, from_id, level_name, newest_first, parse_level,
    query_result, LogData, LogLevel,
};
use crate::manager::{switched, configs_applied, apply_config, config_label, hide_after_switch};
use crate::models::{has_label, index_of, labels_unique, lemma_index_of, lookup, WindowConfigView, WindowInfoView, WindowStatus};
use crate::shortcut::{
    committed, conflicts_at, has_id, id_index, ids_unique, key_named, shortcuts_distinct, KeyCode, Shortcut,
};
use crate::setup::map_get;
use crate::text::{ascii_upper, contains_seq, split_on};
use crate::window_manager::{added, find, present, position_of, unique, InfoView, RegistryView};

verus! {

/// Ids strictly increase from the oldest entry to the newest.
pub open spec fn ids_increasing(logs: Seq<LogData>) -> bool {
    forall|i: int, j: int| 0 <= i < j < logs.len() ==> #[trigger] logs[i].id < #[trigger] logs[j].id
}

/// Every level's displayed name reads back as that level.
pub proof fn level_name_round_trip(l: LogLevel)
    ensures
        parse_level(level_name(l)) == Some(l),
{
    reveal_strlit("ERROR");
    reveal_strlit("WARN");
    reveal_strlit("INFO");
    reveal_strlit("DEBUG");
    reveal_strlit("TRACE");
    match l {
        LogLevel::Error => assert(ascii_upper("ERROR"@) =~= "ERROR"@),
        LogLevel::Warn => {
            assert(ascii_upper("WARN"@) =~= "WARN"@);
            assert("WARN"@ != "ERROR"@);
        },
        LogLevel::Info => {
            assert(ascii_upper("INFO"@) =~= "INFO"@);
            assert("INFO"@ != "ERROR"@);
            assert("INFO"@[0] != "WARN"@[0]);
        },
        LogLevel::Debug => {
            assert(ascii_upper("DEBUG"@) =~= "DEBUG"@);
            assert("DEBUG"@[0] != "ERROR"@[0]);
            assert("DEBUG"@ != "WARN"@);
            assert("DEBUG"@ != "INFO"@);
        },
        LogLevel::Trace => {
            assert(ascii_upper("TRACE"@) =~= "TRACE"@);
            assert("TRACE"@[0] != "ERROR"@[0]);
            assert("TRACE"@ != "WARN"@);
            assert("TRACE"@ != "INFO"@);
            assert("TRACE"@[0] != "DEBUG"@[0]);
        },
    }
}

/// Level names are read without regard to ASCII case.
pub proof fn level_parse_ignores_case(s: Seq<char>)
    ensures
        parse_level(ascii_upper(s)) == parse_level(s),
{
    assert(ascii_upper(ascii_upper(s)) =~= ascii_upper(s));
}

/// Storing one more entry never leaves more than 5000 stored.
pub proof fn store_stays_bounded(logs: Seq<LogData>, d: LogData)
    requires
        logs.len() <= 5000,
    ensures
        append_trimmed(logs, d).len() <= 5000,
{
}

/// The entry just stored is the newest one, and the entries kept are the
/// newest of those stored before, in their order.
pub proof fn stored_entry_is_newest(logs: Seq<LogData>, d: LogData)
    ensures
        append_trimmed(logs, d).len() > 0,
        append_trimmed(logs, d).last() == d,
        exists|k: int|
            0 <= k <= logs.len() && append_trimmed(logs, d) == logs.subrange(k, logs.len() as int).push(d),
{
    let s = logs.push(d);
    if s.len() > 5000 {
        assert(append_trimmed(logs, d) =~= logs.subrange(1000, logs.len() as int).push(d));
    } else {
        assert(append_trimmed(logs, d) =~= logs.subrange(0, logs.len() as int).push(d));
    }
}

/// When the next id is above every stored id, storing an entry with it keeps
/// the ids increasing and the next id above them all.
pub proof fn store_keeps_ids_increasing(logs: Seq<LogData>, d: LogData)
    requires
        ids_increasing(logs),
        forall|i: int| 0 <= i < logs.len() ==> #[trigger] logs[i].id < d.id,
        d.id < u64::MAX,
    ensures
        ids_increasing(append_trimmed(logs, d)),
        forall|i: int|
            0 <= i < append_trimmed(logs, d).len() ==> #[trigger] append_trimmed(logs, d)[i].id < d.id + 1,
{
    let s = logs.push(d);
    assert(ids_increasing(s)) by {
        assert forall|i: int, j: int| 0 <= i < j < s.len() implies #[trigger] s[i].id < #[trigger] s[j].id by {
            if j == logs.len() {
                assert(s[i] == logs[i]);
            } else {
                assert(s[i] == logs[i]);
                assert(s[j] == logs[j]);
            }
        }
    }
    if s.len() > 5000 {
        let t = s.subrange(1000, s.len() as int);
        assert forall|i: int, j: int| 0 <= i < j < t.len() implies #[trigger] t[i].id < #[trigger] t[j].id by {
            assert(t[i] == s[i + 1000]);
            assert(t[j] == s[j + 1000]);
        }
        assert forall|i: int| 0 <= i < t.len() implies #[trigger] t[i].id < d.id + 1 by {
            assert(t[i] == s[i + 1000]);
            if i + 1000 < logs.len() {
                assert(s[i + 1000] == logs[i + 1000]);
            }
        }
    } else {
        assert forall|i: int| 0 <= i < s.len() implies #[trigger] s[i].id < d.id + 1 by {
            if i < logs.len() {
                assert(s[i] == logs[i]);
            }
        }
    }
}

/// A query never returns more entries than its effective size, which is at
/// most 5000.
pub proof fn query_is_bounded(
    logs: Seq<LogData>,
    level: Option<Seq<char>>,
    search: Option<Seq<char>>,
    size: Option<usize>,
    since: Option<u64>,
)
    ensures
        query_result(logs, level, search, size, since).len() <= effective_size(size),
        effective_size(size) <= 5000,
{
}

proof fn from_id_is_suffix(logs: Seq<LogData>, since: u64)
    ensures
        exists|k: int| 0 <= k <= logs.len() && from_id(logs, since) == logs.subrange(k, logs.len() as int),
        from_id(logs, since).len() > 0 ==> from_id(logs, since)[0].id >= since,
    decreases logs.len(),
{
    if logs.len() == 0 || logs[0].id >= since {
        assert(logs.subrange(0, logs.len() as int) =~= logs);
    } else {
        from_id_is_suffix(logs.drop_first(), since);
        let k = choose|k: int|
            0 <= k <= logs.drop_first().len() && from_id(logs.drop_first(), since)
                == logs.drop_first().subrange(k, logs.drop_first().len() as int);
        assert(logs.drop_first().subrange(k, logs.drop_first().len() as int) =~= logs.subrange(
            k + 1,
            logs.len() as int,
        ));
    }
}

/// With increasing ids, reading from an id returns only entries at or past
/// that id, and every entry at or past it up to the size asked for.
pub proof fn reading_from_id_starts_there(logs: Seq<LogData>, since: u64, n: int)
    requires
        ids_increasing(logs),
        n >= 0,
    ensures
        forall|i: int|
            0 <= i < first_n(from_id(logs, since), n).len() ==> #[trigger] first_n(from_id(logs, since), n)[i].id >= since,
        forall|i: int|
            0 <= i < logs.len() && logs[i].id >= since ==> #[trigger] from_id(logs, since).contains(logs[i]),
{
    from_id_is_suffix(logs, since);
    let f = from_id(logs, since);
    let k = choose|k: int| 0 <= k <= logs.len() && f == logs.subrange(k, logs.len() as int);
    let r = first_n(f, n);
    assert forall|i: int| 0 <= i < r.len() implies #[trigger] r[i].id >= since by {
        assert(r[i] == f[i]);
        assert(f[0].id >= since);
        if i > 0 {
            assert(f[0] == logs[k]);
            assert(f[i] == logs[k + i]);
        }
    }
    assert forall|i: int| 0 <= i < logs.len() && logs[i].id >= since implies #[trigger] f.contains(logs[i]) by {
        if i < k {
            assert(f.len() > 0 ==> f[0] == logs[k]);
            lemma_skipped_below(logs, since, k, i);
        }
        assert(f[i - k] == logs[i]);
    }
}

proof fn lemma_skipped_below(logs: Seq<LogData>, since: u64, k: int, i: int)
    requires
        0 <= i < k <= logs.len(),
        from_id(logs, since) == logs.subrange(k, logs.len() as int),
    ensures
        logs[i].id < since,
    decreases logs.len(),
{
    if logs[0].id >= since {
        assert(from_id(logs, since).len() == logs.len());
        assert(logs.subrange(k, logs.len() as int).len() == logs.len() - k);
    } else if i > 0 {
        let t = logs.drop_first();
        assert(from_id(logs, since) == from_id(t, since));
        assert(t.subrange(k - 1, t.len() as int) =~= logs.subrange(k, logs.len() as int));
        assert(t[i - 1] == logs[i]);
        lemma_skipped_below(t, since, k - 1, i - 1);
    }
}

/// The newest-first read of `n` entries holds the last `n` entries, last first.
pub proof fn newest_first_reverses(logs: Seq<LogData>, n: int)
    requires
        0 <= n <= logs.len(),
    ensures
        newest_first(logs, n).len() == n,
        n > 0 ==> newest_first(logs, n)[0] == logs.last(),
{
}

/// A restore request made when the control window gains the focus would
/// give the focus back to the current quick window; once the control window
/// gains the focus again, that earlier request gives nothing back.
pub proof fn only_latest_restore_counts(s: FocusView)
    requires
        s.control_focus_restore_id < u64::MAX - 1,
        !s.is_dragging,
    ensures
        ({
            let c = "control"@;
            let s1 = after_focus_event(s, c, true);
            let s2 = after_focus_event(s1, c, true);
            &&& focus_follow_up(s, c, true) == FocusFollowUp::RestoreFocus((s.control_focus_restore_id + 1) as u64)
            &&& restore_target(s1, (s.control_focus_restore_id + 1) as u64) == s.quick_window_current
            &&& focus_follow_up(s1, c, true) == FocusFollowUp::RestoreFocus((s.control_focus_restore_id + 2) as u64)
            &&& restore_target(s2, (s.control_focus_restore_id + 1) as u64) is None
        }),
{
}

/// A pinned window set is never hidden.
pub proof fn pinned_is_never_hidden(s: FocusView, since_focus_change_nanos: u128)
    requires
        s.is_pinned,
    ensures
        !hide_due(s, since_focus_change_nanos),
{
}

/// While a window is dragged nothing is hidden.
pub proof fn dragging_is_never_hidden(s: FocusView, since_focus_change_nanos: u128)
    requires
        s.is_dragging,
    ensures
        !hide_due(s, since_focus_change_nanos),
{
}

/// A window gaining the focus cancels any pending hide; a quick window
/// gaining it is registered and becomes the current one.
pub proof fn gaining_focus_cancels_hide(s: FocusView, label: Seq<char>, t: u128)
    ensures
        !focus_recorded(s, label, true).hide_pending,
        !hide_due(focus_recorded(s, label, true), t),
        kind_of(label) == WindowKind::Quick ==> focus_recorded(s, label, true).quick_window_current
            == Some(label) && focus_recorded(s, label, true).quick_window_labels.contains(label),
{
}

/// After switching to a known window, it is the active one, in the
/// foreground and loaded, and the window active before is the previous one.
pub proof fn switch_makes_window_active<P>(s: crate::manager::ManagerView<P>, l: Seq<char>)
    requires
        labels_unique(s.windows),
        has_label(s.windows, l),
        s.active_window != Some(l),
    ensures
        switched(s, l).active_window == Some(l),
        lookup(switched(s, l).windows, l) matches Some(w) && w.status == WindowStatus::Foreground && w.loaded,
        switched(s, l).previous_active_window == (match s.active_window {
            Some(a) => Some(a),
            None => s.previous_active_window,
        }),
{
    let r = switched(s, l);
    let j = index_of(s.windows, l);
    assert(s.windows[j].label == l);
    assert(r.windows.len() == s.windows.len());
    assert forall|i: int| 0 <= i < r.windows.len() implies #[trigger] r.windows[i].label == s.windows[i].label by {}
    assert(labels_unique(r.windows)) by {
        assert forall|a: int, b: int|
            0 <= a < r.windows.len() && 0 <= b < r.windows.len() && a != b implies #[trigger] r.windows[a].label
            != #[trigger] r.windows[b].label by {
            assert(r.windows[a].label == s.windows[a].label);
            assert(r.windows[b].label == s.windows[b].label);
        }
    }
    assert(r.windows[j].label == l);
    lemma_index_of(r.windows, l, j);
}

/// Applying configurations never drops a window, and every configured
/// window is there afterwards.
pub proof fn configs_keep_windows<P>(s: Seq<WindowInfoView<P>>, cs: Seq<WindowConfigView>)
    requires
        labels_unique(s),
    ensures
        labels_unique(configs_applied(s, cs)),
        forall|l: Seq<char>| has_label(s, l) ==> has_label(configs_applied(s, cs), l),
        forall|k: int| 0 <= k < cs.len() ==> has_label(configs_applied(s, cs), #[trigger] config_label(cs[k])),
    decreases cs.len(),
{
    if cs.len() > 0 {
        configs_keep_windows(s, cs.drop_last());
        let prev = configs_applied(s, cs.drop_last());
        crate::manager::lemma_apply_config_unique(prev, cs.last());
        assert forall|k: int| 0 <= k < cs.len() implies has_label(configs_applied(s, cs), #[trigger] config_label(cs[k])) by {
            if k < cs.len() - 1 {
                assert(cs.drop_last()[k] == cs[k]);
            }
        }
    }
}

/// The configuration fields of `w` taken from `c`; its label, status, load
/// flag and position kept.
pub open spec fn with_config<P>(w: WindowInfoView<P>, c: WindowConfigView) -> WindowInfoView<P> {
    WindowInfoView {
        title: c.title,
        url: c.url,
        icon: c.icon,
        shortcut: c.shortcut,
        proxy_id: c.proxy_id,
        is_default: c.is_default,
        ..w
    }
}

/// The last configuration in `cs` that gives label `l`.
pub open spec fn last_config_for(cs: Seq<WindowConfigView>, l: Seq<char>) -> Option<WindowConfigView>
    decreases cs.len(),
{
    if cs.len() == 0 {
        None
    } else if config_label(cs.last()) == l {
        Some(cs.last())
    } else {
        last_config_for(cs.drop_last(), l)
    }
}

/// Every window configured by `cs` holds the fields of the last
/// configuration that gives its label.
proof fn lemma_configured_fields<P>(s: Seq<WindowInfoView<P>>, cs: Seq<WindowConfigView>)
    requires
        labels_unique(s),
    ensures
        forall|i: int|
            0 <= i < configs_applied(s, cs).len() ==> (match last_config_for(
                cs,
                #[trigger] configs_applied(s, cs)[i].label,
            ) {
                Some(c) => with_config(configs_applied(s, cs)[i], c) == configs_applied(s, cs)[i],
                None => true,
            }),
    decreases cs.len(),
{
    if cs.len() > 0 {
        let prev = configs_applied(s, cs.drop_last());
        let c = cs.last();
        let l = config_label(c);
        let t = configs_applied(s, cs);
        lemma_configured_fields(s, cs.drop_last());
        configs_keep_windows(s, cs.drop_last());
        assert(t == apply_config(prev, c));
        if has_label(prev, l) {
            let k = index_of(prev, l);
            assert(prev[k].label == l);
            assert forall|i: int|
                0 <= i < t.len() implies (match last_config_for(cs, #[trigger] t[i].label) {
                Some(c2) => with_config(t[i], c2) == t[i],
                None => true,
            }) by {
                if i != k {
                    assert(t[i] == prev[i]);
                    assert(prev[i].label != l);
                    assert(last_config_for(cs, t[i].label) == last_config_for(cs.drop_last(), prev[i].label));
                }
            }
        } else {
            assert forall|i: int|
                0 <= i < t.len() implies (match last_config_for(cs, #[trigger] t[i].label) {
                Some(c2) => with_config(t[i], c2) == t[i],
                None => true,
            }) by {
                if i < prev.len() {
                    assert(t[i] == prev[i]);
                    assert(prev[i].label != l);
                    assert(last_config_for(cs, t[i].label) == last_config_for(cs.drop_last(), prev[i].label));
                }
            }
        }
    }
}

/// Configurations applied to windows that already carry all their labels
/// only overwrite configuration fields, each window taking those of the
/// last configuration that gives its label.
proof fn lemma_reapplied<P>(u: Seq<WindowInfoView<P>>, cs: Seq<WindowConfigView>)
    requires
        labels_unique(u),
        forall|j: int| 0 <= j < cs.len() ==> has_label(u, #[trigger] config_label(cs[j])),
    ensures
        configs_applied(u, cs) == Seq::new(
            u.len(),
            |i: int|
                match last_config_for(cs, u[i].label) {
                    Some(c) => with_config(u[i], c),
                    None => u[i],
                },
        ),
    decreases cs.len(),
{
    let target = Seq::new(
        u.len(),
        |i: int|
            match last_config_for(cs, u[i].label) {
                Some(c) => with_config(u[i], c),
                None => u[i],
            },
    );
    if cs.len() == 0 {
        assert(configs_applied(u, cs) =~= target);
    } else {
        let cs0 = cs.drop_last();
        assert forall|j: int| 0 <= j < cs0.len() implies has_label(u, #[trigger] config_label(cs0[j])) by {
            assert(cs0[j] == cs[j]);
        }
        lemma_reapplied(u, cs0);
        let prev = configs_applied(u, cs0);
        let c = cs.last();
        let l = config_label(c);
        assert(has_label(u, config_label(cs[cs.len() - 1])));
        let k = choose|k: int| 0 <= k < u.len() && #[trigger] u[k].label == l;
        assert(prev[k].label == l);
        assert(labels_unique(prev)) by {
            assert forall|a: int, b: int|
                0 <= a < prev.len() && 0 <= b < prev.len() && a != b implies #[trigger] prev[a].label
                != #[trigger] prev[b].label by {
                assert(prev[a].label == u[a].label);
                assert(prev[b].label == u[b].label);
            }
        }
        lemma_index_of(prev, l, k);
        assert(configs_applied(u, cs) == apply_config(prev, c));
        assert(configs_applied(u, cs) =~= target) by {
            assert forall|i: int| 0 <= i < u.len() implies #[trigger] configs_applied(u, cs)[i] == target[i] by {
                if i == k {
                } else {
                    assert(u[i].label != l);
                    assert(last_config_for(cs, u[i].label) == last_config_for(cs0, u[i].label));
                }
            }
        }
    }
}

/// Applying the same configurations a second time changes no window.
pub proof fn reapplying_configs_changes_nothing<P>(s: Seq<WindowInfoView<P>>, cs: Seq<WindowConfigView>)
    requires
        labels_unique(s),
    ensures
        configs_applied(configs_applied(s, cs), cs) == configs_applied(s, cs),
{
    let t = configs_applied(s, cs);
    configs_keep_windows(s, cs);
    lemma_configured_fields(s, cs);
    lemma_reapplied(t, cs);
    assert(configs_applied(t, cs) =~= t) by {
        assert forall|i: int| 0 <= i < t.len() implies #[trigger] configs_applied(t, cs)[i] == t[i] by {
            let x = t[i];
            assert(configs_applied(s, cs)[i] == x);
        }
    }
}

/// A window just added is the active one, in the foreground, not loaded and
/// without a position.
pub proof fn added_window_is_active<P>(s: RegistryView<P>, l: Seq<char>, title: Seq<char>, url: Seq<char>)
    requires
        unique(s.windows),
    ensures
        added(s, l, title, url).active_window == Some(l),
        find(added(s, l, title, url).windows, l) == Some(InfoView::<P> {
            label: l,
            title,
            url,
            status: WindowStatus::Foreground,
            loaded: false,
            position: None,
        }),
{
    let r = added(s, l, title, url);
    let w1 = match s.active_window {
        Some(a) => if present(s.windows, a) {
            crate::window_manager::with_status(s.windows, position_of(s.windows, a), WindowStatus::Background)
        } else {
            s.windows
        },
        None => s.windows,
    };
    assert(unique(w1)) by {
        assert forall|a: int, b: int|
            0 <= a < w1.len() && 0 <= b < w1.len() && a != b implies #[trigger] w1[a].label != #[trigger] w1[b].label by {
            assert(w1[a].label == s.windows[a].label);
            assert(w1[b].label == s.windows[b].label);
        }
    }
    let info = InfoView::<P> { label: l, title, url, status: WindowStatus::Foreground, loaded: false, position: None };
    if present(w1, l) {
        let i = position_of(w1, l);
        assert(w1[i].label == l);
        assert(unique(r.windows)) by {
            assert forall|a: int, b: int|
                0 <= a < r.windows.len() && 0 <= b < r.windows.len() && a != b implies #[trigger] r.windows[a].label
                != #[trigger] r.windows[b].label by {
                assert(r.windows[a].label == w1[a].label);
                assert(r.windows[b].label == w1[b].label);
            }
        }
        lemma_registry_index(r.windows, l, i);
    } else {
        let i = w1.len() as int;
        assert(r.windows[i] == info);
        assert(unique(r.windows)) by {
            assert forall|a: int, b: int|
                0 <= a < r.windows.len() && 0 <= b < r.windows.len() && a != b implies #[trigger] r.windows[a].label
                != #[trigger] r.windows[b].label by {
                if a < i && b < i {
                    assert(r.windows[a] == w1[a]);
                    assert(r.windows[b] == w1[b]);
                } else if a == i {
                    assert(r.windows[b] == w1[b]);
                } else {
                    assert(r.windows[a] == w1[a]);
                }
            }
        }
        lemma_registry_index(r.windows, l, i);
    }
}

proof fn lemma_registry_index<P>(s: Seq<InfoView<P>>, l: Seq<char>, i: int)
    requires
        unique(s),
        0 <= i < s.len(),
        s[i].label == l,
    ensures
        present(s, l),
        position_of(s, l) == i,
{
    assert(present(s, l));
    let j = position_of(s, l);
    assert(s[j].label == l);
}

/// Recording a shortcut that no other id holds keeps ids unique and never
/// gives two ids the same shortcut.
pub proof fn commit_keeps_shortcuts_distinct(
    s: Seq<(Seq<char>, Shortcut, Seq<char>)>,
    id: Seq<char>,
    sc: Shortcut,
    desc: Seq<char>,
)
    requires
        ids_unique(s),
        shortcuts_distinct(s),
        forall|i: int| !conflicts_at(s, i, sc, id),
    ensures
        ids_unique(committed(s, id, sc, desc)),
        shortcuts_distinct(committed(s, id, sc, desc)),
{
    let r = committed(s, id, sc, desc);
    if has_id(s, id) {
        let k = id_index(s, id);
        assert(s[k].0 == id);
        assert forall|a: int, b: int|
            0 <= a < r.len() && 0 <= b < r.len() && a != b implies #[trigger] r[a].0 != #[trigger] r[b].0 by {
            if a == k {
                assert(s[b].0 != s[k].0);
            } else if b == k {
                assert(s[a].0 != s[k].0);
            }
        }
        assert forall|a: int, b: int|
            0 <= a < r.len() && 0 <= b < r.len() && a != b implies #[trigger] r[a].1 != #[trigger] r[b].1 by {
            if a == k {
                assert(!conflicts_at(s, b, sc, id));
                assert(s[b].0 != id);
            } else if b == k {
                assert(!conflicts_at(s, a, sc, id));
                assert(s[a].0 != id);
            }
        }
    } else {
        let n = s.len() as int;
        assert forall|a: int, b: int|
            0 <= a < r.len() && 0 <= b < r.len() && a != b implies #[trigger] r[a].0 != #[trigger] r[b].0 by {
            if a == n {
                assert(r[b] == s[b]);
            } else if b == n {
                assert(r[a] == s[a]);
            } else {
                assert(r[a] == s[a]);
                assert(r[b] == s[b]);
            }
        }
        assert forall|a: int, b: int|
            0 <= a < r.len() && 0 <= b < r.len() && a != b implies #[trigger] r[a].1 != #[trigger] r[b].1 by {
            if a == n {
                assert(r[b] == s[b]);
                assert(!conflicts_at(s, b, sc, id));
            } else if b == n {
                assert(r[a] == s[a]);
                assert(!conflicts_at(s, a, sc, id));
            } else {
                assert(r[a] == s[a]);
                assert(r[b] == s[b]);
            }
        }
    }
}

/// Once a shortcut is recorded under an id without a conflict, that id is
/// the only one holding it, so a press of it runs that id's handler.
pub proof fn recorded_shortcut_belongs_to_its_id(
    s: Seq<(Seq<char>, Shortcut, Seq<char>)>,
    id: Seq<char>,
    sc: Shortcut,
    desc: Seq<char>,
)
    requires
        ids_unique(s),
        forall|i: int| !conflicts_at(s, i, sc, id),
    ensures
        exists|i: int|
            0 <= i < committed(s, id, sc, desc).len() && #[trigger] committed(s, id, sc, desc)[i].1 == sc
                && committed(s, id, sc, desc)[i].0 == id,
        forall|i: int|
            0 <= i < committed(s, id, sc, desc).len() && #[trigger] committed(s, id, sc, desc)[i].1 == sc
                ==> committed(s, id, sc, desc)[i].0 == id,
{
    let r = committed(s, id, sc, desc);
    let k = if has_id(s, id) {
        id_index(s, id)
    } else {
        s.len() as int
    };
    if has_id(s, id) {
        assert(s[k].0 == id);
    }
    assert(r[k].1 == sc && r[k].0 == id);
    assert forall|i: int| 0 <= i < r.len() && #[trigger] r[i].1 == sc implies r[i].0 == id by {
        if i != k {
            assert(r[i] == s[i]);
            assert(!conflicts_at(s, i, sc, id));
        }
    }
}

/// A setting read after it was remembered gives back the value remembered,
/// and every other setting reads as before.
pub proof fn setting_reads_back_what_was_remembered(
    m: Map<Seq<char>, Seq<char>>,
    key: Seq<char>,
    value: Seq<char>,
    other: Seq<char>,
)
    requires
        other != key,
    ensures
        map_get(m.insert(key, value), key) == Some(value),
        map_get(m.insert(key, value), other) == map_get(m, other),
{
}

/// Whatever came between, once the control window's focus flag was last set
/// to `a` and the quick windows' flag to `b`, in either order, every window
/// is unfocused exactly when neither was set.
pub proof fn latest_focus_flags_decide(s: FocusView, a: bool, b: bool)
    ensures
        ({
            let s1 = FocusView { quick_windows_focused: b, ..FocusView { control_focused: a, ..s } };
            let s2 = FocusView { control_focused: a, ..FocusView { quick_windows_focused: b, ..s } };
            &&& (!s1.control_focused && !s1.quick_windows_focused) == (!a && !b)
            &&& (!s2.control_focused && !s2.quick_windows_focused) == (!a && !b)
        }),
{
}

/// Once a newer focus-restore id was issued, an older one is never the
/// latest again and gives no focus back.
pub proof fn older_restore_id_is_never_latest(later: FocusView, a: u64)
    requires
        a < later.control_focus_restore_id,
    ensures
        a != later.control_focus_restore_id,
        restore_target(later, a) is None,
{
}

/// With no focus change between two clock readings, the time since the focus
/// changed only grows; a focus change restarts it from zero.
pub proof fn time_since_focus_change_grows(c1: FocusClock, c2: FocusClock, c3: FocusClock)
    requires
        c2.focus_changed_at == c1.focus_changed_at,
        c2.latest >= c1.latest,
    ensures
        elapsed(c2.latest, c2.focus_changed_at) >= elapsed(c1.latest, c1.focus_changed_at),
        focus_restarted(c2, c3) ==> elapsed(c3.latest, c3.focus_changed_at) == 0,
{
}

/// With no move between two clock readings, the time since the last move
/// only grows; a move restarts it from zero.
pub proof fn time_since_move_grows(c1: FocusClock, c2: FocusClock, c3: FocusClock)
    requires
        c2.moved_at == c1.moved_at,
        c2.latest >= c1.latest,
    ensures
        elapsed(c2.latest, c2.moved_at) >= elapsed(c1.latest, c1.moved_at),
        move_restarted(c2, c3) ==> elapsed(c3.latest, c3.moved_at) == 0,
{
}

/// The place in the alphabet of the letter a key is for (`KeyA` is 0);
/// -1 for any other key.
pub open spec fn letter_place(k: KeyCode) -> int {
    match k {
        KeyCode::KeyA => 0,
        KeyCode::KeyB => 1,
        KeyCode::KeyC => 2,
        KeyCode::KeyD => 3,
        KeyCode::KeyE => 4,
        KeyCode::KeyF => 5,
        KeyCode::KeyG => 6,
        KeyCode::KeyH => 7,
        KeyCode::KeyI => 8,
        KeyCode::KeyJ => 9,
        KeyCode::KeyK => 10,
        KeyCode::KeyL => 11,
        KeyCode::KeyM => 12,
        KeyCode::KeyN => 13,
        KeyCode::KeyO => 14,
        KeyCode::KeyP => 15,
        KeyCode::KeyQ => 16,
        KeyCode::KeyR => 17,
        KeyCode::KeyS => 18,
        KeyCode::KeyT => 19,
        KeyCode::KeyU => 20,
        KeyCode::KeyV => 21,
        KeyCode::KeyW => 22,
        KeyCode::KeyX => 23,
        KeyCode::KeyY => 24,
        KeyCode::KeyZ => 25,
        _ => -1,
    }
}

/// The digit a key is for; -1 for any other key.
pub open spec fn digit_place(k: KeyCode) -> int {
    match k {
        KeyCode::Digit0 => 0,
        KeyCode::Digit1 => 1,
        KeyCode::Digit2 => 2,
        KeyCode::Digit3 => 3,
        KeyCode::Digit4 => 4,
        KeyCode::Digit5 => 5,
        KeyCode::Digit6 => 6,
        KeyCode::Digit7 => 7,
        KeyCode::Digit8 => 8,
        KeyCode::Digit9 => 9,
        _ => -1,
    }
}

/// A single upper-case letter, alone or after `KEY`, names the key of that
/// letter, so that two letters never name the same key.
pub proof fn letter_tokens_name_their_keys(c: char)
    requires
        'A' <= c <= 'Z',
    ensures
        key_named(seq![c]) is Some,
        letter_place(key_named(seq![c])->0) == c as int - 'A' as int,
        key_named("KEY"@ + seq![c]) == key_named(seq![c]),
{
    reveal_strlit("KEY");
    let s = "KEY"@ + seq![c];
    assert(s.subrange(0, 3) =~= "KEY"@);
    assert(s[3] == c);
    if c == 'A' {
    } else if c == 'B' {
    } else if c == 'C' {
    } else if c == 'D' {
    } else if c == 'E' {
    } else if c == 'F' {
    } else if c == 'G' {
    } else if c == 'H' {
    } else if c == 'I' {
    } else if c == 'J' {
    } else if c == 'K' {
    } else if c == 'L' {
    } else if c == 'M' {
    } else if c == 'N' {
    } else if c == 'O' {
    } else if c == 'P' {
    } else if c == 'Q' {
    } else if c == 'R' {
    } else if c == 'S' {
    } else if c == 'T' {
    } else if c == 'U' {
    } else if c == 'V' {
    } else if c == 'W' {
    } else if c == 'X' {
    } else if c == 'Y' {
    } else if c == 'Z' {
    }
}

/// A single decimal digit, alone or after `DIGIT`, names the key of that digit.
pub proof fn digit_tokens_name_their_keys(c: char)
    requires
        '0' <= c <= '9',
    ensures
        key_named(seq![c]) is Some,
        digit_place(key_named(seq![c])->0) == c as int - '0' as int,
        key_named("DIGIT"@ + seq![c]) == key_named(seq![c]),
{
    reveal_strlit("DIGIT");
    let s = "DIGIT"@ + seq![c];
    assert(s.subrange(0, 5) =~= "DIGIT"@);
    assert(s[5] == c);
    if c == '0' {
    } else if c == '1' {
    } else if c == '2' {
    } else if c == '3' {
    } else if c == '4' {
    } else if c == '5' {
    } else if c == '6' {
    } else if c == '7' {
    } else if c == '8' {
    } else if c == '9' {
    }
}

proof fn lemma_matching_entries_match(
    logs: Seq<LogData>,
    level: Option<Seq<char>>,
    search: Option<Seq<char>>,
)
    ensures
        forall|i: int|
            0 <= i < matching_entries(logs, level, search).len() ==> entry_matches(
                #[trigger] matching_entries(logs, level, search)[i],
                level,
                search,
            ),
    decreases logs.len(),
{
    if logs.len() > 0 {
        let prev = matching_entries(logs.drop_last(), level, search);
        let m = matching_entries(logs, level, search);
        lemma_matching_entries_match(logs.drop_last(), level, search);
        assert forall|i: int| 0 <= i < m.len() implies entry_matches(#[trigger] m[i], level, search) by {
            if i < prev.len() {
                assert(m[i] == prev[i]);
            }
        }
    }
}

/// Every entry a query returns has the search text in its message (whatever
/// its target says) and, when levels are chosen, one of the chosen levels.
pub proof fn query_returns_only_matching_entries(
    logs: Seq<LogData>,
    level: Option<Seq<char>>,
    search: Option<Seq<char>>,
    size: Option<usize>,
    since: Option<u64>,
)
    ensures
        forall|k: int|
            0 <= k < query_result(logs, level, search, size, since).len() ==> {
                let d = #[trigger] query_result(logs, level, search, size, since)[k];
                &&& search matches Some(t) ==> contains_seq(d.args@, t)
                &&& level matches Some(spec) ==> exists|j: int|
                    0 <= j < split_on(spec, ',').len() && parse_level(#[trigger] split_on(spec, ',')[j])
                        == Some(d.level)
            },
{
    let m = matching_entries(logs, level, search);
    lemma_matching_entries_match(logs, level, search);
    let r = query_result(logs, level, search, size, since);
    match since {
        Some(sn) => {
            from_id_is_suffix(m, sn);
            let f = from_id(m, sn);
            let k0 = choose|k0: int| 0 <= k0 <= m.len() && f == m.subrange(k0, m.len() as int);
            assert forall|k: int| 0 <= k < r.len() implies entry_matches(#[trigger] r[k], level, search) by {
                assert(r[k] == f[k]);
                assert(f[k] == m[k0 + k]);
            }
        },
        None => {
            assert forall|k: int| 0 <= k < r.len() implies entry_matches(#[trigger] r[k], level, search) by {
                assert(r[k] == m[m.len() - 1 - k]);
            }
        },
    }
}

/// Once a window loses the focus, whichever it is, the caller is told to
/// check whether every window is to be hidden, and a hide becomes pending.
pub proof fn losing_focus_asks_for_hide_check(s: FocusView, label: Seq<char>)
    ensures
        focus_follow_up(s, label, false) == FocusFollowUp::CheckHide,
        after_focus_event(s, label, false).hide_pending,
{
}

/// After a switch to a window, the window named for hiding is never that
/// window: it is the window active before the switch, when that one is
/// registered and another window.
pub proof fn switch_never_hides_its_target<P>(s: crate::manager::ManagerView<P>, l: Seq<char>)
    requires
        labels_unique(s.windows),
    ensures
        hide_after_switch(switched(s, l), l) != Some(l),
        hide_after_switch(switched(s, l), l) matches Some(h) ==> switched(s, l).previous_active_window == Some(h)
            && has_label(switched(s, l).windows, h),
        match s.active_window {
            Some(a) => (has_label(s.windows, l) && a != l && has_label(s.windows, a)) ==> hide_after_switch(
                switched(s, l),
                l,
            ) == Some(a),
            None => true,
        },
{
    let t = switched(s, l);
    if has_label(s.windows, l) && s.active_window != Some(l) {
        assert forall|i: int| 0 <= i < t.windows.len() implies #[trigger] t.windows[i].label == s.windows[i].label by {}
        assert(t.windows.len() == s.windows.len());
        assert(labels_unique(t.windows)) by {
            assert forall|a: int, b: int|
                0 <= a < t.windows.len() && 0 <= b < t.windows.len() && a != b implies #[trigger] t.windows[a].label
                != #[trigger] t.windows[b].label by {
                assert(t.windows[a].label == s.windows[a].label);
                assert(t.windows[b].label == s.windows[b].label);
            }
        }
        match s.active_window {
            Some(a) => {
                if has_label(s.windows, a) {
                    let i = index_of(s.windows, a);
                    assert(t.windows[i].label == a);
                    lemma_index_of(t.windows, a, i);
                }
            },
            None => {},
        }
    }
    match t.previous_active_window {
        Some(p) => {
            if has_label(t.windows, p) {
                let i = index_of(t.windows, p);
                assert(t.windows[i].label == p);
            }
        },
        None => {},
    }
}

/// Switching the registry from an active window to another registered one
/// makes that one active and the window active before the previous one.
pub proof fn registry_switch_remembers_the_window_before<P>(s: RegistryView<P>, l: Seq<char>, a: Seq<char>)
    requires
        s.active_window == Some(a),
        a != l,
        present(s.windows, l),
    ensures
        crate::window_manager::switched(s, l).active_window == Some(l),
        crate::window_manager::switched(s, l).previous_active_window == Some(a),
{
}

} // verus!
