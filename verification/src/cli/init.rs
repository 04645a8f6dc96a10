//! Registering the streambreak hooks in the coding agent's `settings.json`.
//!
//! The settings file is read and written by the application, which hands the
//! parsed document over as a [`Json`] value; this module decides what the
//! document becomes.

use vstd::prelude::*;
use crate::text::{is_char_prefix, starts_with, str_equal};

verus! {

/// A JSON document. Numbers keep their text, so that no float is needed;
/// object members keep their order.
#[derive(Debug)]
pub enum Json {
    Null,
    Bool(bool),
    Number(String),
    Str(String),
    Array(Vec<Json>),
    Object(Vec<(String, Json)>),
}

/// A JSON document as the contracts see it.
pub enum JsonModel {
    Null,
    Bool(bool),
    Number(Seq<char>),
    Str(Seq<char>),
    Array(Seq<JsonModel>),
    Object(Seq<(Seq<char>, JsonModel)>),
}

impl Json {
    /// The document as a mathematical value.
    pub open spec fn model(self) -> JsonModel
        decreases self,
    {
        match self {
            Json::Null => JsonModel::Null,
            Json::Bool(b) => JsonModel::Bool(b),
            Json::Number(n) => JsonModel::Number(n@),
            Json::Str(s) => JsonModel::Str(s@),
            Json::Array(v) => JsonModel::Array(models(v@)),
            Json::Object(f) => JsonModel::Object(member_models(f@)),
        }
    }
}

/// The models of a list of documents.
pub open spec fn models(s: Seq<Json>) -> Seq<JsonModel>
    decreases s,
{
    if s.len() == 0 {
        Seq::empty()
    } else {
        models(s.drop_last()).push(s.last().model())
    }
}

/// The models of a list of object members.
pub open spec fn member_models(s: Seq<(String, Json)>) -> Seq<(Seq<char>, JsonModel)>
    decreases s,
{
    if s.len() == 0 {
        Seq::empty()
    } else {
        member_models(s.drop_last()).push((s.last().0@, s.last().1.model()))
    }
}


/// The position of the first member with the key, or -1 when no member
/// has it.
pub open spec fn key_pos(members: Seq<(Seq<char>, JsonModel)>, key: Seq<char>) -> int
    decreases members.len(),
{
    if members.len() == 0 {
        -1
    } else {
        let p = key_pos(members.drop_last(), key);
        if p >= 0 {
            p
        } else if members.last().0 == key {
            members.len() - 1
        } else {
            -1
        }
    }
}

/// `v[key]` as `serde_json` reads it: the value of the first member with
/// that key of an object, `null` for a missing key or a value that is not
/// an object.
pub open spec fn member(v: JsonModel, key: Seq<char>) -> JsonModel {
    match v {
        JsonModel::Object(m) => {
            let p = key_pos(m, key);
            if p >= 0 { m[p].1 } else { JsonModel::Null }
        },
        _ => JsonModel::Null,
    }
}

/// Sets `key` to `value`: in place where the key is present (as
/// `serde_json::Map::insert` does), at the end otherwise.
pub open spec fn with_member(
    m: Seq<(Seq<char>, JsonModel)>,
    key: Seq<char>,
    value: JsonModel,
) -> Seq<(Seq<char>, JsonModel)> {
    let p = key_pos(m, key);
    if p >= 0 { m.update(p, (key, value)) } else { m.push((key, value)) }
}

/// The command prefix that marks a hook as one of ours.
pub open spec fn marker() -> Seq<char> {
    "streambreak"@
}

/// A hook command that runs streambreak: `cmd["command"]` is a string that
/// starts with `streambreak`.
pub open spec fn runs_streambreak(cmd: JsonModel) -> bool {
    match member(cmd, "command"@) {
        JsonModel::Str(c) => is_char_prefix(marker(), c),
        _ => false,
    }
}

/// A hook entry of ours: `entry["hooks"]` is an array with a command that
/// runs streambreak.
pub open spec fn is_streambreak_entry(entry: JsonModel) -> bool {
    match member(entry, "hooks"@) {
        JsonModel::Array(h) => exists|i: int| 0 <= i < h.len() && #[trigger] runs_streambreak(h[i]),
        _ => false,
    }
}

/// The entries of an event that are not ours, in their order.
pub open spec fn foreign_entries(entries: Seq<JsonModel>) -> Seq<JsonModel> {
    entries.filter(|e: JsonModel| !is_streambreak_entry(e))
}

/// The hooks object after registering `entry` for `event`: our earlier
/// entries for the event are dropped, the others kept, and `entry` comes
/// last; an event without an array gets an array with `entry` alone.
pub open spec fn with_entry(
    hooks: Seq<(Seq<char>, JsonModel)>,
    event: Seq<char>,
    entry: JsonModel,
) -> Seq<(Seq<char>, JsonModel)> {
    let p = key_pos(hooks, event);
    let entries = if p >= 0 {
        match hooks[p].1 {
            JsonModel::Array(a) => foreign_entries(a).push(entry),
            _ => seq![entry],
        }
    } else {
        seq![entry]
    };
    with_member(hooks, event, JsonModel::Array(entries))
}

/// A hook entry that runs `command` for the events that `matcher` selects,
/// with a timeout of three seconds.
pub open spec fn hook_entry(matcher: Seq<char>, command: Seq<char>) -> JsonModel {
    JsonModel::Object(
        seq![
            ("matcher"@, JsonModel::Str(matcher)),
            (
                "hooks"@,
                JsonModel::Array(
                    seq![
                        JsonModel::Object(
                            seq![
                                ("type"@, JsonModel::Str("command"@)),
                                ("command"@, JsonModel::Str(command)),
                                ("timeout"@, JsonModel::Number("3"@)),
                            ],
                        ),
                    ],
                ),
            ),
        ],
    )
}

/// Start the idle timer before each tool use.
pub open spec fn pre_tool_use_entry() -> JsonModel {
    hook_entry(""@, "streambreak timer start"@)
}

/// Show the popup when the agent waits for the user.
pub open spec fn notification_entry() -> JsonModel {
    hook_entry("idle_prompt|permission_prompt"@, "streambreak show --reason=idle"@)
}

/// Hide the popup when the agent is done.
pub open spec fn stop_entry() -> JsonModel {
    hook_entry(""@, "streambreak hide --reason=complete"@)
}

/// The hooks object with our three entries registered, in order.
pub open spec fn merged_hooks(hooks: Seq<(Seq<char>, JsonModel)>) -> Seq<(Seq<char>, JsonModel)> {
    with_entry(
        with_entry(with_entry(hooks, "PreToolUse"@, pre_tool_use_entry()), "Notification"@, notification_entry()),
        "Stop"@,
        stop_entry(),
    )
}

/// The settings on which registration succeeds: `null`, or an object whose
/// `hooks` member, if present, is an object. On anything else the
/// registration panics.
pub open spec fn can_register(settings: JsonModel) -> bool {
    match settings {
        JsonModel::Null => true,
        JsonModel::Object(m) => {
            let p = key_pos(m, "hooks"@);
            p < 0 || m[p].1 is Object
        },
        _ => false,
    }
}

/// The hooks object of the settings, empty when there is none.
pub open spec fn hooks_of(settings: JsonModel) -> Seq<(Seq<char>, JsonModel)> {
    match member(settings, "hooks"@) {
        JsonModel::Object(h) => h,
        _ => Seq::empty(),
    }
}

/// The settings after registration: the `hooks` member (added at the end
/// when missing, `null` settings becoming an object) holds the merged hooks;
/// everything else is unchanged.
pub open spec fn registered(settings: JsonModel) -> JsonModel {
    let members = match settings {
        JsonModel::Object(m) => m,
        _ => Seq::empty(),
    };
    JsonModel::Object(with_member(members, "hooks"@, JsonModel::Object(merged_hooks(hooks_of(settings)))))
}

/// `key_pos` finds the first member with the key, or none.
pub proof fn lemma_key_pos(m: Seq<(Seq<char>, JsonModel)>, key: Seq<char>)
    ensures
        -1 <= key_pos(m, key) < m.len(),
        key_pos(m, key) >= 0 ==> m[key_pos(m, key)].0 == key,
        forall|j: int| 0 <= j < m.len() && (key_pos(m, key) < 0 || j < key_pos(m, key)) ==> #[trigger] m[j].0 != key,
    decreases m.len(),
{
    if m.len() > 0 {
        lemma_key_pos(m.drop_last(), key);
        assert forall|j: int| 0 <= j < m.len() - 1 implies #[trigger] m[j] == m.drop_last()[j] by {}
    }
}

/// `key_pos` looks at the keys only.
pub proof fn lemma_key_pos_keys(m: Seq<(Seq<char>, JsonModel)>, n: Seq<(Seq<char>, JsonModel)>, key: Seq<char>)
    requires
        m.len() == n.len(),
        forall|j: int| 0 <= j < m.len() ==> #[trigger] m[j].0 == n[j].0,
    ensures
        key_pos(m, key) == key_pos(n, key),
    decreases m.len(),
{
    if m.len() > 0 {
        assert forall|j: int| 0 <= j < m.len() - 1 implies #[trigger] m.drop_last()[j].0 == n.drop_last()[j].0 by {
            assert(m[j].0 == n[j].0);
        }
        lemma_key_pos_keys(m.drop_last(), n.drop_last(), key);
    }
}

/// Setting a member leaves the keys as they were, plus the new one at the
/// end when it was missing.
pub proof fn lemma_with_member(m: Seq<(Seq<char>, JsonModel)>, key: Seq<char>, value: JsonModel, other: Seq<char>)
    ensures
        key_pos(with_member(m, key, value), key) >= 0,
        with_member(m, key, value)[key_pos(with_member(m, key, value), key)] == (key, value),
        other != key ==> key_pos(with_member(m, key, value), other) == key_pos(m, other),
        other != key ==> key_pos(m, other) >= 0 ==> with_member(m, key, value)[key_pos(m, other)] == m[key_pos(m, other)],
{
    let p = key_pos(m, key);
    lemma_key_pos(m, key);
    let r = with_member(m, key, value);
    if p >= 0 {
        assert forall|j: int| 0 <= j < m.len() implies #[trigger] m[j].0 == r[j].0 by {}
        lemma_key_pos_keys(m, r, key);
        lemma_key_pos_keys(m, r, other);
        lemma_key_pos(m, other);
    } else {
        assert(r.drop_last() =~= m);
        lemma_key_pos(m, other);
    }
}

/// Setting a member to the value it already has changes nothing.
pub proof fn lemma_with_member_same(m: Seq<(Seq<char>, JsonModel)>, key: Seq<char>, value: JsonModel)
    requires
        key_pos(m, key) >= 0,
        m[key_pos(m, key)].1 == value,
    ensures
        with_member(m, key, value) == m,
{
    lemma_key_pos(m, key);
    assert(with_member(m, key, value) =~= m);
}

/// Dropping our entries twice is dropping them once.
pub proof fn lemma_foreign_entries_idempotent(a: Seq<JsonModel>)
    ensures
        foreign_entries(foreign_entries(a)) == foreign_entries(a),
{
    let pred = |e: JsonModel| !is_streambreak_entry(e);
    let f = a.filter(pred);
    broadcast use vstd::seq_lib::group_filter_ensures;
    lemma_filter_all(f, pred);
}

/// A sequence whose items all pass the test is its own filter.
proof fn lemma_filter_all(s: Seq<JsonModel>, pred: spec_fn(JsonModel) -> bool)
    requires
        forall|i: int| 0 <= i < s.len() ==> pred(#[trigger] s[i]),
    ensures
        s.filter(pred) == s,
    decreases s.len(),
{
    reveal_with_fuel(Seq::<_>::filter, 1);
    if s.len() > 0 {
        lemma_filter_all(s.drop_last(), pred);
        assert(s.drop_last().push(s.last()) =~= s);
    } else {
        assert(s.filter(pred) =~= s);
    }
}

/// Our entry at the end of a list is dropped with the others of ours.
pub proof fn lemma_foreign_entries_push_ours(a: Seq<JsonModel>, entry: JsonModel)
    requires
        is_streambreak_entry(entry),
    ensures
        foreign_entries(a.push(entry)) == foreign_entries(a),
{
    reveal_with_fuel(Seq::<_>::filter, 1);
    assert(a.push(entry).drop_last() =~= a);
}

/// A hook entry whose command starts with `streambreak` is one of ours.
pub proof fn lemma_hook_entry_is_ours(matcher: Seq<char>, command: Seq<char>)
    requires
        is_char_prefix(marker(), command),
    ensures
        is_streambreak_entry(hook_entry(matcher, command)),
{
    reveal_strlit("matcher");
    reveal_strlit("hooks");
    reveal_strlit("type");
    reveal_strlit("command");
    reveal_strlit("timeout");
    let entry = hook_entry(matcher, command);
    assert("matcher"@ != "hooks"@) by {
        assert("matcher"@.len() != "hooks"@.len());
    }
    assert("type"@ != "command"@) by {
        assert("type"@.len() != "command"@.len());
    }
    let cmd = JsonModel::Object(
        seq![
            ("type"@, JsonModel::Str("command"@)),
            ("command"@, JsonModel::Str(command)),
            ("timeout"@, JsonModel::Number("3"@)),
        ],
    );
    match cmd {
        JsonModel::Object(cm) => {
            assert(cm.drop_last().drop_last() =~= seq![("type"@, JsonModel::Str("command"@))]);
            assert(cm.drop_last().drop_last().drop_last() =~= Seq::<(Seq<char>, JsonModel)>::empty());
            assert(key_pos(cm.drop_last().drop_last().drop_last(), "command"@) == -1);
            assert(key_pos(cm.drop_last().drop_last(), "command"@) == -1);
            assert(key_pos(cm.drop_last(), "command"@) == 1);
            assert(key_pos(cm, "command"@) == 1);
        },
        _ => {},
    }
    assert(runs_streambreak(cmd));
    match entry {
        JsonModel::Object(em) => {
            assert(em.drop_last().drop_last() =~= Seq::<(Seq<char>, JsonModel)>::empty());
            assert(key_pos(em.drop_last().drop_last(), "hooks"@) == -1);
            assert(key_pos(em.drop_last(), "hooks"@) == -1);
            assert(key_pos(em, "hooks"@) == 1);
        },
        _ => {},
    }
    let h = seq![cmd];
    assert(member(entry, "hooks"@) == JsonModel::Array(h));
    assert(h[0] == cmd);
    lemma_entry_with_command(entry, h, 0);
}

/// An entry whose `hooks` array holds a command of ours is one of ours.
proof fn lemma_entry_with_command(entry: JsonModel, h: Seq<JsonModel>, i: int)
    requires
        member(entry, "hooks"@) == JsonModel::Array(h),
        0 <= i < h.len(),
        runs_streambreak(h[i]),
    ensures
        is_streambreak_entry(entry),
{
    let m = member(entry, "hooks"@);
    assert(m is Array);
    let h2 = m->Array_0;
    assert(h2 == h);
    assert(runs_streambreak(h2[i]));
    assert(exists|j: int| 0 <= j < h2.len() && #[trigger] runs_streambreak(h2[j]));
}

/// Our three entries are ours.
pub proof fn lemma_our_entries()
    ensures
        is_streambreak_entry(pre_tool_use_entry()),
        is_streambreak_entry(notification_entry()),
        is_streambreak_entry(stop_entry()),
{
    reveal_strlit("streambreak");
    reveal_strlit("streambreak timer start");
    reveal_strlit("streambreak show --reason=idle");
    reveal_strlit("streambreak hide --reason=complete");
    assert("streambreak timer start"@.subrange(0, 11) =~= marker());
    assert("streambreak show --reason=idle"@.subrange(0, 11) =~= marker());
    assert("streambreak hide --reason=complete"@.subrange(0, 11) =~= marker());
    lemma_hook_entry_is_ours(""@, "streambreak timer start"@);
    lemma_hook_entry_is_ours("idle_prompt|permission_prompt"@, "streambreak show --reason=idle"@);
    lemma_hook_entry_is_ours(""@, "streambreak hide --reason=complete"@);
}


/// The member `event` is an array that ends with `entry` and holds none of
/// our entries before it.
pub open spec fn settled(m: Seq<(Seq<char>, JsonModel)>, event: Seq<char>, entry: JsonModel) -> bool {
    let p = key_pos(m, event);
    &&& p >= 0
    &&& m[p].1 is Array
    &&& m[p].1->Array_0.len() > 0
    &&& m[p].1->Array_0.last() == entry
    &&& foreign_entries(m[p].1->Array_0.drop_last()) == m[p].1->Array_0.drop_last()
}

proof fn lemma_with_entry_settles(m: Seq<(Seq<char>, JsonModel)>, event: Seq<char>, entry: JsonModel)
    requires
        is_streambreak_entry(entry),
    ensures
        settled(with_entry(m, event, entry), event, entry),
{
    let p = key_pos(m, event);
    let entries = if p >= 0 {
        match m[p].1 {
            JsonModel::Array(a) => foreign_entries(a).push(entry),
            _ => seq![entry],
        }
    } else {
        seq![entry]
    };
    lemma_with_member(m, event, JsonModel::Array(entries), event);
    if p >= 0 && m[p].1 is Array {
        let a = m[p].1->Array_0;
        lemma_foreign_entries_idempotent(a);
        assert(entries.drop_last() =~= foreign_entries(a));
    } else {
        assert(entries.drop_last() =~= Seq::<JsonModel>::empty());
        reveal_with_fuel(Seq::<_>::filter, 1);
        assert(foreign_entries(Seq::<JsonModel>::empty()) =~= Seq::<JsonModel>::empty());
    }
}

proof fn lemma_with_entry_keeps_settled(
    m: Seq<(Seq<char>, JsonModel)>,
    event: Seq<char>,
    entry: JsonModel,
    other: Seq<char>,
    other_entry: JsonModel,
)
    requires
        settled(m, event, entry),
        other != event,
    ensures
        settled(with_entry(m, other, other_entry), event, entry),
{
    let p = key_pos(m, other);
    let entries = if p >= 0 {
        match m[p].1 {
            JsonModel::Array(a) => foreign_entries(a).push(other_entry),
            _ => seq![other_entry],
        }
    } else {
        seq![other_entry]
    };
    lemma_with_member(m, other, JsonModel::Array(entries), event);
}

proof fn lemma_settled_fixed(m: Seq<(Seq<char>, JsonModel)>, event: Seq<char>, entry: JsonModel)
    requires
        settled(m, event, entry),
        is_streambreak_entry(entry),
    ensures
        with_entry(m, event, entry) == m,
{
    let p = key_pos(m, event);
    let a = m[p].1->Array_0;
    assert(a =~= a.drop_last().push(entry));
    lemma_foreign_entries_push_ours(a.drop_last(), entry);
    assert(foreign_entries(a).push(entry) =~= a);
    lemma_key_pos(m, event);
    lemma_with_member_same(m, event, JsonModel::Array(a));
}

proof fn lemma_event_names_distinct()
    ensures
        "PreToolUse"@ != "Notification"@,
        "PreToolUse"@ != "Stop"@,
        "Notification"@ != "Stop"@,
{
    reveal_strlit("PreToolUse");
    reveal_strlit("Notification");
    reveal_strlit("Stop");
    assert("PreToolUse"@.len() != "Notification"@.len());
    assert("PreToolUse"@.len() != "Stop"@.len());
    assert("Notification"@.len() != "Stop"@.len());
}

/// Merging our hooks into hooks that already hold them changes nothing.
pub proof fn lemma_merged_hooks_idempotent(h: Seq<(Seq<char>, JsonModel)>)
    ensures
        merged_hooks(merged_hooks(h)) == merged_hooks(h),
{
    lemma_our_entries();
    lemma_event_names_distinct();
    let e1 = pre_tool_use_entry();
    let e2 = notification_entry();
    let e3 = stop_entry();
    let w1 = with_entry(h, "PreToolUse"@, e1);
    let w2 = with_entry(w1, "Notification"@, e2);
    let m = with_entry(w2, "Stop"@, e3);
    lemma_with_entry_settles(h, "PreToolUse"@, e1);
    lemma_with_entry_keeps_settled(w1, "PreToolUse"@, e1, "Notification"@, e2);
    lemma_with_entry_keeps_settled(w2, "PreToolUse"@, e1, "Stop"@, e3);
    lemma_with_entry_settles(w1, "Notification"@, e2);
    lemma_with_entry_keeps_settled(w2, "Notification"@, e2, "Stop"@, e3);
    lemma_with_entry_settles(w2, "Stop"@, e3);
    lemma_settled_fixed(m, "PreToolUse"@, e1);
    lemma_settled_fixed(m, "Notification"@, e2);
    lemma_settled_fixed(m, "Stop"@, e3);
}

/// Registration leaves every other event of the hooks object as it was.
pub proof fn lemma_merged_hooks_keep_other_events(h: Seq<(Seq<char>, JsonModel)>, other: Seq<char>)
    requires
        other != "PreToolUse"@,
        other != "Notification"@,
        other != "Stop"@,
    ensures
        key_pos(merged_hooks(h), other) == key_pos(h, other),
        key_pos(h, other) >= 0 ==> merged_hooks(h)[key_pos(h, other)] == h[key_pos(h, other)],
{
    let e1 = pre_tool_use_entry();
    let e2 = notification_entry();
    let e3 = stop_entry();
    let w1 = with_entry(h, "PreToolUse"@, e1);
    let w2 = with_entry(w1, "Notification"@, e2);
    lemma_with_entry_keeps_member(h, "PreToolUse"@, e1, other);
    lemma_with_entry_keeps_member(w1, "Notification"@, e2, other);
    lemma_with_entry_keeps_member(w2, "Stop"@, e3, other);
}

proof fn lemma_with_entry_keeps_member(
    m: Seq<(Seq<char>, JsonModel)>,
    event: Seq<char>,
    entry: JsonModel,
    other: Seq<char>,
)
    requires
        other != event,
    ensures
        key_pos(with_entry(m, event, entry), other) == key_pos(m, other),
        key_pos(m, other) >= 0 ==> with_entry(m, event, entry)[key_pos(m, other)] == m[key_pos(m, other)],
{
    let p = key_pos(m, event);
    let entries = if p >= 0 {
        match m[p].1 {
            JsonModel::Array(a) => foreign_entries(a).push(entry),
            _ => seq![entry],
        }
    } else {
        seq![entry]
    };
    lemma_with_member(m, event, JsonModel::Array(entries), other);
}

/// Registering twice gives the same settings as registering once: running
/// `streambreak init` again leaves `settings.json` as it is.
pub proof fn lemma_register_idempotent(settings: JsonModel)
    requires
        can_register(settings),
    ensures
        can_register(registered(settings)),
        registered(registered(settings)) == registered(settings),
{
    let members = match settings {
        JsonModel::Object(m) => m,
        _ => Seq::empty(),
    };
    let h = merged_hooks(hooks_of(settings));
    let w = with_member(members, "hooks"@, JsonModel::Object(h));
    lemma_with_member(members, "hooks"@, JsonModel::Object(h), "hooks"@);
    assert(hooks_of(registered(settings)) == h);
    lemma_merged_hooks_idempotent(hooks_of(settings));
    lemma_key_pos(w, "hooks"@);
    lemma_with_member_same(w, "hooks"@, JsonModel::Object(h));
}

/// After registration each of the three events ends with our entry, with
/// none of ours before it, and other members of the settings keep their
/// values.
pub proof fn lemma_register_settles_events(settings: JsonModel, other: Seq<char>)
    requires
        can_register(settings),
    ensures
        settled(hooks_of(registered(settings)), "PreToolUse"@, pre_tool_use_entry()),
        settled(hooks_of(registered(settings)), "Notification"@, notification_entry()),
        settled(hooks_of(registered(settings)), "Stop"@, stop_entry()),
        settings is Object && other != "hooks"@ ==> member(registered(settings), other) == member(settings, other),
{
    lemma_our_entries();
    lemma_event_names_distinct();
    let members = match settings {
        JsonModel::Object(m) => m,
        _ => Seq::empty(),
    };
    let h0 = hooks_of(settings);
    let e1 = pre_tool_use_entry();
    let e2 = notification_entry();
    let e3 = stop_entry();
    let w1 = with_entry(h0, "PreToolUse"@, e1);
    let w2 = with_entry(w1, "Notification"@, e2);
    lemma_with_entry_settles(h0, "PreToolUse"@, e1);
    lemma_with_entry_keeps_settled(w1, "PreToolUse"@, e1, "Notification"@, e2);
    lemma_with_entry_keeps_settled(w2, "PreToolUse"@, e1, "Stop"@, e3);
    lemma_with_entry_settles(w1, "Notification"@, e2);
    lemma_with_entry_keeps_settled(w2, "Notification"@, e2, "Stop"@, e3);
    lemma_with_entry_settles(w2, "Stop"@, e3);
    let h = merged_hooks(h0);
    lemma_with_member(members, "hooks"@, JsonModel::Object(h), "hooks"@);
    lemma_with_member(members, "hooks"@, JsonModel::Object(h), other);
    assert(hooks_of(registered(settings)) == h);
}


/// A hook command: run `command`, with a timeout of three seconds.
pub open spec fn timed_command(command: Seq<char>) -> JsonModel {
    JsonModel::Object(
        seq![
            ("type"@, JsonModel::Str("command"@)),
            ("command"@, JsonModel::Str(command)),
            ("timeout"@, JsonModel::Number("3"@)),
        ],
    )
}

/// The entry that comes last for `event` in the settings' hooks (`null`
/// when the event holds no array).
pub open spec fn last_entry_for(settings: JsonModel, event: Seq<char>) -> JsonModel {
    match member(JsonModel::Object(hooks_of(settings)), event) {
        JsonModel::Array(a) => a.last(),
        _ => JsonModel::Null,
    }
}

/// The matcher and the commands of an entry.
proof fn lemma_hook_entry_members(matcher: Seq<char>, command: Seq<char>)
    ensures
        member(hook_entry(matcher, command), "matcher"@) == JsonModel::Str(matcher),
        member(hook_entry(matcher, command), "hooks"@) == JsonModel::Array(seq![timed_command(command)]),
{
    reveal_strlit("matcher");
    reveal_strlit("hooks");
    assert("matcher"@ != "hooks"@) by {
        assert("matcher"@.len() != "hooks"@.len());
    }
    match hook_entry(matcher, command) {
        JsonModel::Object(em) => {
            assert(em.drop_last().drop_last() =~= Seq::<(Seq<char>, JsonModel)>::empty());
            assert(key_pos(em.drop_last().drop_last(), "hooks"@) == -1);
            assert(key_pos(em.drop_last(), "hooks"@) == -1);
            assert(key_pos(em, "hooks"@) == 1);
            assert(key_pos(em.drop_last().drop_last(), "matcher"@) == -1);
            assert(key_pos(em.drop_last(), "matcher"@) == 0);
            assert(key_pos(em, "matcher"@) == 0);
        },
        _ => {},
    }
    assert(seq![timed_command(command)] =~= seq![
        JsonModel::Object(
            seq![
                ("type"@, JsonModel::Str("command"@)),
                ("command"@, JsonModel::Str(command)),
                ("timeout"@, JsonModel::Number("3"@)),
            ],
        ),
    ]);
}

/// What registration installs: after it, the entry that comes last for
/// `PreToolUse` runs `streambreak timer start` before every tool (an empty
/// matcher), the one for `Notification` runs `streambreak show
/// --reason=idle` on the idle and permission prompts, and the one for `Stop`
/// runs `streambreak hide --reason=complete` whenever the agent stops; each
/// command has a timeout of three seconds.
pub proof fn lemma_registered_entries(settings: JsonModel)
    requires
        can_register(settings),
    ensures
        member(last_entry_for(registered(settings), "PreToolUse"@), "matcher"@) == JsonModel::Str(""@),
        member(last_entry_for(registered(settings), "PreToolUse"@), "hooks"@)
            == JsonModel::Array(seq![timed_command("streambreak timer start"@)]),
        member(last_entry_for(registered(settings), "Notification"@), "matcher"@)
            == JsonModel::Str("idle_prompt|permission_prompt"@),
        member(last_entry_for(registered(settings), "Notification"@), "hooks"@)
            == JsonModel::Array(seq![timed_command("streambreak show --reason=idle"@)]),
        member(last_entry_for(registered(settings), "Stop"@), "matcher"@) == JsonModel::Str(""@),
        member(last_entry_for(registered(settings), "Stop"@), "hooks"@)
            == JsonModel::Array(seq![timed_command("streambreak hide --reason=complete"@)]),
{
    lemma_register_settles_events(settings, "hooks"@);
    lemma_hook_entry_members(""@, "streambreak timer start"@);
    lemma_hook_entry_members("idle_prompt|permission_prompt"@, "streambreak show --reason=idle"@);
    lemma_hook_entry_members(""@, "streambreak hide --reason=complete"@);
    let h = hooks_of(registered(settings));
    assert(last_entry_for(registered(settings), "PreToolUse"@) == pre_tool_use_entry());
    assert(last_entry_for(registered(settings), "Notification"@) == notification_entry());
    assert(last_entry_for(registered(settings), "Stop"@) == stop_entry());
}

/// The models of a list of documents, item by item.
pub proof fn lemma_models_index(s: Seq<Json>)
    ensures
        models(s).len() == s.len(),
        forall|i: int| 0 <= i < s.len() ==> #[trigger] models(s)[i] == s[i].model(),
    decreases s.len(),
{
    if s.len() > 0 {
        lemma_models_index(s.drop_last());
        assert forall|i: int| 0 <= i < s.len() implies #[trigger] models(s)[i] == s[i].model() by {
            if i < s.len() - 1 {
                assert(s.drop_last()[i] == s[i]);
            }
        }
    }
}

/// The models of a list of members, member by member.
pub proof fn lemma_member_models_index(s: Seq<(String, Json)>)
    ensures
        member_models(s).len() == s.len(),
        forall|i: int| 0 <= i < s.len() ==> #[trigger] member_models(s)[i] == (s[i].0@, s[i].1.model()),
    decreases s.len(),
{
    if s.len() > 0 {
        lemma_member_models_index(s.drop_last());
        assert forall|i: int| 0 <= i < s.len() implies #[trigger] member_models(s)[i] == (s[i].0@, s[i].1.model()) by {
            if i < s.len() - 1 {
                assert(s.drop_last()[i] == s[i]);
            }
        }
    }
}

/// Two lists of members with the same models item by item have the same
/// model.
proof fn lemma_member_models_ext(s: Seq<(String, Json)>, t: Seq<(Seq<char>, JsonModel)>)
    requires
        s.len() == t.len(),
        forall|i: int| 0 <= i < s.len() ==> (s[i].0@, s[i].1.model()) == #[trigger] t[i],
    ensures
        member_models(s) == t,
{
    lemma_member_models_index(s);
    assert(member_models(s) =~= t);
}

/// Two lists of documents with the same models item by item have the same
/// model.
proof fn lemma_models_ext(s: Seq<Json>, t: Seq<JsonModel>)
    requires
        s.len() == t.len(),
        forall|i: int| 0 <= i < s.len() ==> s[i].model() == #[trigger] t[i],
    ensures
        models(s) == t,
{
    lemma_models_index(s);
    assert(models(s) =~= t);
}

/// The position of the first member with the key, as `key_pos` gives it.
pub fn find_member(members: &Vec<(String, Json)>, key: &str) -> (r: Option<usize>)
    ensures
        r is None <==> key_pos(member_models(members@), key@) < 0,
        r matches Some(i) ==> i as int == key_pos(member_models(members@), key@) && i < members@.len(),
{
    let ghost mm = member_models(members@);
    let ghost kp = key_pos(mm, key@);
    proof {
        lemma_member_models_index(members@);
        lemma_key_pos(mm, key@);
    }
    let mut i: usize = 0;
    while i < members.len()
        invariant
            i <= members@.len(),
            mm == member_models(members@),
            kp == key_pos(mm, key@),
            mm.len() == members@.len(),
            -1 <= kp < mm.len(),
            kp >= 0 ==> mm[kp].0 == key@,
            forall|j: int| 0 <= j < mm.len() && (kp < 0 || j < kp) ==> #[trigger] mm[j].0 != key@,
            forall|j: int| 0 <= j < members@.len() ==> #[trigger] mm[j] == (members@[j].0@, members@[j].1.model()),
            kp < 0 || kp >= i,
        decreases members@.len() - i,
    {
        let same = str_equal(members[i].0.as_str(), key);
        proof {
            assert(mm[i as int] == (members@[i as int].0@, members@[i as int].1.model()));
        }
        if same {
            assert(mm[i as int].0 == key@);
            assert(kp == i);
            return Some(i);
        }
        i = i + 1;
    }
    None
}

/// Whether `cmd["command"]` is a string that starts with `streambreak`.
fn runs_streambreak_exec(cmd: &Json) -> (r: bool)
    ensures
        r == runs_streambreak(cmd.model()),
{
    match cmd {
        Json::Object(members) => {
            let ghost mm = member_models(members@);
            proof {
                lemma_member_models_index(members@);
                lemma_key_pos(mm, "command"@);
                assert(cmd.model() == JsonModel::Object(mm));
            }
            match find_member(members, "command") {
                Some(i) => {
                    proof {
                        let kp = key_pos(mm, "command"@);
                        assert(kp >= 0);
                        assert(i as int == kp);
                        assert(mm[kp] == (members@[kp].0@, members@[kp].1.model()));
                        assert(member(cmd.model(), "command"@) == mm[kp].1);
                        assert(member(cmd.model(), "command"@) == members@[i as int].1.model());
                    }
                    match &members[i].1 {
                        Json::Str(c) => {
                            proof {
                                reveal_strlit("streambreak");
                            }
                            starts_with(c.as_str(), "streambreak")
                        },
                        _ => false,
                    }
                },
                None => false,
            }
        },
        _ => false,
    }
}

/// Whether the hook entry is one of ours.
pub fn is_streambreak_entry_exec(entry: &Json) -> (r: bool)
    ensures
        r == is_streambreak_entry(entry.model()),
{
    match entry {
        Json::Object(members) => {
            let ghost mm = member_models(members@);
            proof {
                lemma_member_models_index(members@);
                lemma_key_pos(mm, "hooks"@);
                assert(entry.model() == JsonModel::Object(mm));
            }
            match find_member(members, "hooks") {
                Some(i) => {
                    proof {
                        let kp = key_pos(mm, "hooks"@);
                        assert(mm[kp] == (members@[kp].0@, members@[kp].1.model()));
                        assert(member(entry.model(), "hooks"@) == members@[i as int].1.model());
                    }
                    match &members[i].1 {
                        Json::Array(cmds) => {
                            let ghost h = models(cmds@);
                            proof {
                                lemma_models_index(cmds@);
                                assert(member(entry.model(), "hooks"@) == JsonModel::Array(h));
                            }
                            let mut j: usize = 0;
                            while j < cmds.len()
                                invariant
                                    j <= cmds@.len(),
                                    h == models(cmds@),
                                    h.len() == cmds@.len(),
                                    member(entry.model(), "hooks"@) == JsonModel::Array(h),
                                    forall|k: int| 0 <= k < cmds@.len() ==> #[trigger] h[k] == cmds@[k].model(),
                                    forall|k: int| 0 <= k < j ==> !runs_streambreak(#[trigger] h[k]),
                                decreases cmds@.len() - j,
                            {
                                if runs_streambreak_exec(&cmds[j]) {
                                    proof {
                                        assert(runs_streambreak(h[j as int]));
                                        lemma_entry_with_command(entry.model(), h, j as int);
                                    }
                                    return true;
                                }
                                j = j + 1;
                            }
                            false
                        },
                        _ => false,
                    }
                },
                None => false,
            }
        },
        _ => false,
    }
}

/// The entries that are not ours, in their order.
pub fn keep_foreign_entries(entries: Vec<Json>) -> (r: Vec<Json>)
    ensures
        models(r@) == foreign_entries(models(entries@)),
{
    let ghost orig = entries@;
    let ghost om = models(orig);
    proof {
        lemma_models_index(orig);
    }
    let mut rest = entries;
    let mut kept: Vec<Json> = Vec::new();
    let ghost mut i: int = 0;
    proof {
        reveal_with_fuel(Seq::<_>::filter, 1);
        assert(om.take(0) =~= Seq::<JsonModel>::empty());
        assert(models(kept@) =~= Seq::<JsonModel>::empty());
    }
    while rest.len() > 0
        invariant
            0 <= i <= orig.len(),
            rest@ == orig.skip(i),
            om == models(orig),
            om.len() == orig.len(),
            forall|k: int| 0 <= k < orig.len() ==> #[trigger] om[k] == orig[k].model(),
            models(kept@) == foreign_entries(om.take(i)),
        decreases rest.len(),
    {
        let x = rest.remove(0);
        let ours = is_streambreak_entry_exec(&x);
        let ghost before = kept@;
        proof {
            assert(x == orig[i]);
            assert(om.take(i + 1).drop_last() =~= om.take(i));
            reveal_with_fuel(Seq::<_>::filter, 1);
        }
        if !ours {
            kept.push(x);
            proof {
                assert(kept@.drop_last() =~= before);
            }
        }
        proof {
            assert(rest@ =~= orig.skip(i + 1));
            i = i + 1;
        }
    }
    proof {
        assert(om.take(i) =~= om);
    }
    kept
}

/// The hooks object with `entry` registered for `event`.
pub fn add_entry(hooks: Vec<(String, Json)>, event: &str, entry: Json) -> (r: Vec<(String, Json)>)
    ensures
        member_models(r@) == with_entry(member_models(hooks@), event@, entry.model()),
{
    let ghost hm = member_models(hooks@);
    proof {
        lemma_member_models_index(hooks@);
    }
    let mut hooks = hooks;
    let ghost em = entry.model();
    match find_member(&hooks, event) {
        Some(i) => {
            let ghost old_hooks = hooks@;
            let (key, value) = hooks.remove(i);
            let ghost value_model = value.model();
            let entries = match value {
                Json::Array(a) => {
                    let mut kept = keep_foreign_entries(a);
                    let ghost before = kept@;
                    proof {
                        lemma_models_index(before);
                    }
                    kept.push(entry);
                    proof {
                        assert(kept@.len() == before.len() + 1);
                        assert forall|k: int| 0 <= k < kept@.len() implies kept@[k].model() == #[trigger] models(before).push(em)[k] by {
                            if k < before.len() {
                                assert(kept@[k] == before[k]);
                            }
                        }
                        lemma_models_ext(kept@, models(before).push(em));
                    }
                    kept
                },
                _ => {
                    let mut v: Vec<Json> = Vec::new();
                    v.push(entry);
                    proof {
                        lemma_models_ext(v@, seq![em]);
                    }
                    v
                },
            };
            let ghost entries_model = models(entries@);
            hooks.insert(i, (key, Json::Array(entries)));
            proof {
                lemma_key_pos(hm, event@);
                assert(hooks@ =~= old_hooks.update(i as int, hooks@[i as int]));
                lemma_member_models_ext(hooks@, hm.update(i as int, (event@, JsonModel::Array(entries_model))));
            }
        },
        None => {
            let mut v: Vec<Json> = Vec::new();
            v.push(entry);
            proof {
                lemma_models_ext(v@, seq![em]);
            }
            let ghost old_hooks = hooks@;
            hooks.push((String::from_str(event), Json::Array(v)));
            proof {
                lemma_member_models_ext(hooks@, hm.push((event@, JsonModel::Array(seq![em]))));
            }
        },
    }
    hooks
}

/// A JSON string.
fn json_str(s: &str) -> (r: Json)
    ensures
        r.model() == JsonModel::Str(s@),
{
    Json::Str(String::from_str(s))
}

/// The hook entry that runs `command` for the events `matcher` selects.
pub fn make_hook_entry(matcher: &str, command: &str) -> (r: Json)
    ensures
        r.model() == hook_entry(matcher@, command@),
{
    let mut cmd_members: Vec<(String, Json)> = Vec::new();
    cmd_members.push((String::from_str("type"), json_str("command")));
    cmd_members.push((String::from_str("command"), json_str(command)));
    cmd_members.push((String::from_str("timeout"), Json::Number(String::from_str("3"))));
    let ghost cmd_model = JsonModel::Object(
        seq![
            ("type"@, JsonModel::Str("command"@)),
            ("command"@, JsonModel::Str(command@)),
            ("timeout"@, JsonModel::Number("3"@)),
        ],
    );
    proof {
        lemma_member_models_ext(
            cmd_members@,
            seq![
                ("type"@, JsonModel::Str("command"@)),
                ("command"@, JsonModel::Str(command@)),
                ("timeout"@, JsonModel::Number("3"@)),
            ],
        );
    }
    let cmd = Json::Object(cmd_members);
    let mut cmds: Vec<Json> = Vec::new();
    cmds.push(cmd);
    proof {
        lemma_models_ext(cmds@, seq![cmd_model]);
    }
    let mut members: Vec<(String, Json)> = Vec::new();
    members.push((String::from_str("matcher"), json_str(matcher)));
    members.push((String::from_str("hooks"), Json::Array(cmds)));
    proof {
        lemma_member_models_ext(
            members@,
            seq![("matcher"@, JsonModel::Str(matcher@)), ("hooks"@, JsonModel::Array(seq![cmd_model]))],
        );
    }
    Json::Object(members)
}

/// The hooks object with our three entries registered.
pub fn merge_hooks(hooks: Vec<(String, Json)>) -> (r: Vec<(String, Json)>)
    ensures
        member_models(r@) == merged_hooks(member_models(hooks@)),
{
    let h = add_entry(hooks, "PreToolUse", make_hook_entry("", "streambreak timer start"));
    let h = add_entry(
        h,
        "Notification",
        make_hook_entry("idle_prompt|permission_prompt", "streambreak show --reason=idle"),
    );
    add_entry(h, "Stop", make_hook_entry("", "streambreak hide --reason=complete"))
}

/// Whether registration can go ahead on these settings (it panics on the
/// others).
pub fn can_register_hooks(settings: &Json) -> (r: bool)
    ensures
        r == can_register(settings.model()),
{
    match settings {
        Json::Null => true,
        Json::Object(members) => {
            proof {
                lemma_member_models_index(members@);
            }
            match find_member(members, "hooks") {
                Some(i) => match &members[i].1 {
                    Json::Object(_) => true,
                    _ => false,
                },
                None => true,
            }
        },
        _ => false,
    }
}

/// Registers our hooks in the settings: for each of `PreToolUse`,
/// `Notification` and `Stop`, our earlier entries are replaced by the
/// current one, which comes after the user's own entries.
pub fn register_hooks(settings: Json) -> (r: Json)
    requires
        can_register(settings.model()),
    ensures
        r.model() == registered(settings.model()),
{
    let ghost sm = settings.model();
    match settings {
        Json::Object(members) => {
            let ghost mm = member_models(members@);
            proof {
                lemma_member_models_index(members@);
                lemma_key_pos(mm, "hooks"@);
            }
            let mut members = members;
            match find_member(&members, "hooks") {
                Some(i) => {
                    let ghost old_members = members@;
                    let (key, value) = members.remove(i);
                    let hooks = match value {
                        Json::Object(h) => h,
                        _ => Vec::new(),
                    };
                    let merged = merge_hooks(hooks);
                    let ghost merged_model = member_models(merged@);
                    members.insert(i, (key, Json::Object(merged)));
                    proof {
                        assert(members@ =~= old_members.update(i as int, members@[i as int]));
                        lemma_member_models_ext(
                            members@,
                            mm.update(i as int, ("hooks"@, JsonModel::Object(merged_model))),
                        );
                    }
                },
                None => {
                    let merged = merge_hooks(Vec::new());
                    proof {
                        assert(member_models(Seq::<(String, Json)>::empty()) =~= Seq::<(Seq<char>, JsonModel)>::empty());
                    }
                    let ghost merged_model = member_models(merged@);
                    members.push((String::from_str("hooks"), Json::Object(merged)));
                    proof {
                        lemma_member_models_ext(members@, mm.push(("hooks"@, JsonModel::Object(merged_model))));
                    }
                },
            }
            Json::Object(members)
        },
        _ => {
            let merged = merge_hooks(Vec::new());
            proof {
                assert(member_models(Seq::<(String, Json)>::empty()) =~= Seq::<(Seq<char>, JsonModel)>::empty());
            }
            let ghost merged_model = member_models(merged@);
            let mut members: Vec<(String, Json)> = Vec::new();
            members.push((String::from_str("hooks"), Json::Object(merged)));
            proof {
                lemma_member_models_ext(members@, seq![("hooks"@, JsonModel::Object(merged_model))]);
                assert(seq![("hooks"@, JsonModel::Object(merged_model))] =~= Seq::<(Seq<char>, JsonModel)>::empty().push(("hooks"@, JsonModel::Object(merged_model))));
            }
            Json::Object(members)
        },
    }
}

/// The settings that registration starts from: the file's document, or an
/// empty object when there is no file.
pub open spec fn settings_or_empty(existing: Option<JsonModel>) -> JsonModel {
    match existing {
        Some(s) => s,
        None => JsonModel::Object(Seq::empty()),
    }
}

/// Registration for `streambreak init`: starts from an empty object when
/// there is no settings file, and registers our hooks when the settings can
/// take them; `None` when they cannot (where registration panics).
pub fn register_hooks_in_settings(existing: Option<Json>) -> (r: Option<Json>)
    ensures
        ({
            let start = settings_or_empty(match existing {
                Some(s) => Some(s.model()),
                None => None,
            });
            &&& can_register(start) ==> (r matches Some(j) && j.model() == registered(start))
            &&& !can_register(start) ==> r is None
        }),
{
    let settings = match existing {
        Some(s) => s,
        None => {
            let empty: Vec<(String, Json)> = Vec::new();
            proof {
                assert(member_models(empty@) =~= Seq::<(Seq<char>, JsonModel)>::empty());
            }
            Json::Object(empty)
        },
    };
    if can_register_hooks(&settings) {
        Some(register_hooks(settings))
    } else {
        None
    }
}

} // verus!
