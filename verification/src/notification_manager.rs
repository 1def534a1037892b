//! The notifications that the mako daemon holds, and the one being shown.

use vstd::prelude::*;
use vstd::string::*;

use crate::json::{parse_json, Json, JsonNode, JsonView, NodeView};
use crate::text::{
    before, comes_before, decimal, decimal_text, from_utf8, join, joined, lowercase, same, split_lines,
    texts, to_lowercase, trim,
};

verus! {

broadcast use vstd::string::group_string_axioms;

/// How long a listing stays fresh, in nanoseconds.
pub const REFRESH: u64 = 1_000_000_000;

/// Something a notification offers to do.
pub struct NotificationAction {
    pub key: String,
    pub label: String,
}

/// One notification.
pub struct Notification {
    pub id: u64,
    pub app: String,
    pub summary: String,
    pub body: String,
    pub actions: Vec<NotificationAction>,
}

/// The mathematical form of a [`NotificationAction`].
pub struct ActionView {
    pub key: Seq<char>,
    pub label: Seq<char>,
}

/// The mathematical form of a [`Notification`].
pub struct NotificationView {
    pub id: u64,
    pub app: Seq<char>,
    pub summary: Seq<char>,
    pub body: Seq<char>,
    pub actions: Seq<ActionView>,
}

impl View for NotificationAction {
    type V = ActionView;

    open spec fn view(&self) -> ActionView {
        ActionView { key: self.key@, label: self.label@ }
    }
}

/// The actions that a vector holds.
pub open spec fn action_views(v: Seq<NotificationAction>) -> Seq<ActionView> {
    Seq::new(v.len(), |i: int| v[i]@)
}

impl View for Notification {
    type V = NotificationView;

    open spec fn view(&self) -> NotificationView {
        NotificationView {
            id: self.id,
            app: self.app@,
            summary: self.summary@,
            body: self.body@,
            actions: action_views(self.actions@),
        }
    }
}

/// The notifications that a vector holds.
pub open spec fn notification_views(v: Seq<Notification>) -> Seq<NotificationView> {
    Seq::new(v.len(), |i: int| v[i]@)
}

/// Puts an action behind every action whose label does not come after its own.
pub open spec fn insert_action(s: Seq<ActionView>, a: ActionView) -> Seq<ActionView>
    decreases s.len(),
{
    if s.len() > 0 && before(a.label, s[s.len() - 1].label) {
        insert_action(s.subrange(0, s.len() - 1), a).push(s[s.len() - 1])
    } else {
        s.push(a)
    }
}

/// The actions in the order of their labels; equal labels keep their order.
pub open spec fn sorted_actions(s: Seq<ActionView>) -> Seq<ActionView>
    decreases s.len(),
{
    if s.len() == 0 {
        s
    } else {
        insert_action(sorted_actions(s.subrange(0, s.len() - 1)), s[s.len() - 1])
    }
}

/// The members of an `actions` object that are strings, as actions.
pub open spec fn action_entries(o: Seq<(Seq<char>, JsonView)>) -> Seq<ActionView>
    decreases o.len(),
{
    if o.len() == 0 {
        Seq::empty()
    } else {
        let rest = action_entries(o.subrange(0, o.len() - 1));
        let last = o[o.len() - 1];
        match last.1.string() {
            Some(label) => rest.push(ActionView { key: last.0, label }),
            None => rest,
        }
    }
}

/// The actions of a notification document.
pub open spec fn actions_of(v: JsonView) -> Seq<ActionView> {
    match v.get("actions"@) {
        Some(j) => match j.node {
            NodeView::Object(o) => sorted_actions(action_entries(o)),
            _ => Seq::empty(),
        },
        None => Seq::empty(),
    }
}

/// A text member of a document, empty where it is missing or no string.
pub open spec fn text_member(v: JsonView, key: Seq<char>) -> Seq<char> {
    match v.get(key) {
        Some(j) => match j.string() {
            Some(s) => s,
            None => Seq::empty(),
        },
        None => Seq::empty(),
    }
}

/// The notification that a document describes; none without an unsigned `id`.
pub open spec fn notification_of(v: JsonView) -> Option<NotificationView> {
    match v.get("id"@) {
        Some(j) => match j.unsigned() {
            Some(id) => Some(
                NotificationView {
                    id,
                    app: text_member(v, "app_name"@),
                    summary: text_member(v, "summary"@),
                    body: text_member(v, "body"@),
                    actions: actions_of(v),
                },
            ),
            None => None,
        },
        None => None,
    }
}

/// The notifications among these documents, in their order.
pub open spec fn notifications_in(a: Seq<JsonView>) -> Seq<NotificationView>
    decreases a.len(),
{
    if a.len() == 0 {
        Seq::empty()
    } else {
        let rest = notifications_in(a.subrange(0, a.len() - 1));
        match notification_of(a[a.len() - 1]) {
            Some(n) => rest.push(n),
            None => rest,
        }
    }
}

/// The notifications that a listing holds.
pub open spec fn listed(doc: Option<JsonView>) -> Seq<NotificationView> {
    match doc {
        Some(v) => match v.array() {
            Some(a) => notifications_in(a),
            None => Seq::empty(),
        },
        None => Seq::empty(),
    }
}

/// The notifications in the output of `makoctl list -j`, if there was any.
pub open spec fn listing(output: Option<Vec<u8>>) -> Seq<NotificationView> {
    match output {
        Some(bytes) => listed(crate::json::parsed_json(bytes@)),
        None => Seq::empty(),
    }
}

/// Whether one of the lines is this word, white space aside.
pub open spec fn some_line_is(ls: Seq<Seq<char>>, word: Seq<char>) -> bool {
    exists|i: int| 0 <= i < ls.len() && crate::text::trimmed(#[trigger] ls[i]) == word
}

/// Whether the output of `makoctl mode` names the do-not-disturb mode.
pub open spec fn dnd_mode(output: Option<Vec<u8>>) -> bool {
    match output {
        Some(bytes) => match crate::text::utf8_text(bytes@) {
            Some(t) => some_line_is(crate::text::lines(t), "do-not-disturb"@),
            None => false,
        },
        None => false,
    }
}

/// Whether a sequence of actions is in the order of the labels.
pub open spec fn in_label_order(s: Seq<ActionView>) -> bool {
    forall|i: int, j: int|
        0 <= i < j < s.len() ==> !before((#[trigger] s[j]).label, (#[trigger] s[i]).label)
}

/// Inserting keeps the order, and adds the one action.
proof fn lemma_insert_action(s: Seq<ActionView>, a: ActionView)
    requires
        in_label_order(s),
    ensures
        in_label_order(insert_action(s, a)),
        insert_action(s, a).to_multiset() == s.to_multiset().insert(a),
        insert_action(s, a).len() == s.len() + 1,
    decreases s.len(),
{
    let r = insert_action(s, a);
    if s.len() > 0 && before(a.label, s[s.len() - 1].label) {
        let t = s.subrange(0, s.len() - 1);
        let last = s[s.len() - 1];
        assert(in_label_order(t));
        lemma_insert_action(t, a);
        let u = insert_action(t, a);
        assert(r == u.push(last));
        u.to_multiset_ensures();
        t.to_multiset_ensures();
        assert(t.push(last) =~= s);
        assert(r.to_multiset() =~= s.to_multiset().insert(a));
        assert forall|i: int, j: int| 0 <= i < j < r.len() implies !before(
            (#[trigger] r[j]).label,
            (#[trigger] r[i]).label,
        ) by {
            if j == r.len() - 1 {
                assert(u.to_multiset().count(u[i]) > 0);
                assert(u.contains(u[i]));
                if u[i] == a {
                    crate::text::lemma_before_strict(a.label, last.label);
                } else {
                    assert(t.to_multiset().count(u[i]) > 0);
                    assert(t.contains(u[i]));
                    let k = choose|k: int| 0 <= k < t.len() && t[k] == u[i];
                    assert(s[k] == u[i]);
                }
            }
        }
    } else {
        s.to_multiset_ensures();
        assert forall|i: int, j: int| 0 <= i < j < r.len() implies !before(
            (#[trigger] r[j]).label,
            (#[trigger] r[i]).label,
        ) by {
            if j == r.len() - 1 {
                let last = s[s.len() - 1].label;
                if before(a.label, s[i].label) {
                    crate::text::lemma_before_total(a.label, last);
                    crate::text::lemma_before_total(s[i].label, last);
                    if i < s.len() - 1 {
                        assert(!before(last, s[i].label));
                        if a.label != last {
                            if s[i].label != last {
                                crate::text::lemma_before_transitive(a.label, s[i].label, last);
                            }
                        } else {
                            assert(false);
                        }
                    }
                }
            }
        }
    }
}

/// The actions of a notification come in the order of their labels, and they
/// are the actions that the notification listed, each as often.
pub proof fn actions_are_sorted(s: Seq<ActionView>)
    ensures
        in_label_order(sorted_actions(s)),
        sorted_actions(s).to_multiset() == s.to_multiset(),
    decreases s.len(),
{
    if s.len() > 0 {
        let t = s.subrange(0, s.len() - 1);
        actions_are_sorted(t);
        lemma_insert_action(sorted_actions(t), s[s.len() - 1]);
        t.to_multiset_ensures();
        assert(t.push(s[s.len() - 1]) =~= s);
    }
}

/// Adds an action at its place.
fn add_action(v: &mut Vec<NotificationAction>, a: NotificationAction)
    ensures
        action_views(final(v)@) == insert_action(action_views(old(v)@), a@),
{
    let ghost all = action_views(v@);
    let mut k: usize = v.len();
    let ghost mut tail: Seq<ActionView> = Seq::empty();
    assert(all.subrange(0, k as int) =~= all);
    assert(insert_action(all, a@) =~= insert_action(all.subrange(0, k as int), a@) + tail);
    while k > 0 && comes_before(a.label.as_str(), v[k - 1].label.as_str())
        invariant
            k <= v@.len(),
            v@ == old(v)@,
            all == action_views(v@),
            tail == all.subrange(k as int, all.len() as int),
            insert_action(all, a@) == insert_action(all.subrange(0, k as int), a@) + tail,
        decreases k,
    {
        proof {
            let t = all.subrange(0, k as int);
            assert(t[t.len() - 1] == v@[k - 1]@);
            assert(t.subrange(0, t.len() - 1) =~= all.subrange(0, k - 1));
            let inner = insert_action(all.subrange(0, k - 1), a@);
            assert(inner.push(all[k - 1]) + tail =~= inner + all.subrange(
                k - 1,
                all.len() as int,
            ));
            tail = all.subrange(k - 1, all.len() as int);
        }
        k -= 1;
    }
    proof {
        let t = all.subrange(0, k as int);
        if k > 0 {
            assert(t[t.len() - 1] == v@[k - 1]@);
        }
        assert(insert_action(t, a@) == t.push(a@));
    }
    let ghost av = a@;
    v.insert(k, a);
    assert(action_views(v@) =~= all.subrange(0, k as int).push(av) + tail);
}

/// Reads the actions of a notification document.
fn read_actions(value: &Json) -> (r: Vec<NotificationAction>)
    ensures
        action_views(r@) == actions_of(value@),
{
    let mut out: Vec<NotificationAction> = Vec::new();
    assert(action_views(out@) =~= Seq::empty());
    match value.get("actions") {
        Some(j) => {
            proof {
                reveal_with_fuel(crate::json::json_view, 3);
                reveal_with_fuel(crate::json::node_view, 3);
            }
            match &j.node {
                JsonNode::Object(o) => {
                    let ghost all = j@.node->Object_0;
                    let mut i: usize = 0;
                    assert(all.subrange(0, 0) =~= Seq::empty());
                    while i < o.len()
                        invariant
                            i <= o@.len(),
                            all.len() == o@.len(),
                            forall|k: int|
                                0 <= k < o@.len() ==> #[trigger] all[k] == (o@[k].0@, o@[k].1@),
                            action_views(out@) == sorted_actions(
                                action_entries(all.subrange(0, i as int)),
                            ),
                        decreases o@.len() - i,
                    {
                        let ghost t = all.subrange(0, i + 1);
                        assert(t.subrange(0, t.len() - 1) =~= all.subrange(0, i as int));
                        let ghost rest = action_entries(all.subrange(0, i as int));
                        assert(t[t.len() - 1] == all[i as int]);
                        if let Some(label) = o[i].1.as_str() {
                            let a = NotificationAction {
                                key: o[i].0.clone(),
                                label: label.to_owned(),
                            };
                            let ghost u = rest.push(a@);
                            assert(action_entries(t) == u);
                            assert(u.subrange(0, u.len() - 1) =~= rest);
                            add_action(&mut out, a);
                        }
                        i += 1;
                    }
                    assert(all.subrange(0, o@.len() as int) =~= all);
                },
                _ => {},
            }
        },
        None => {},
    }
    out
}

/// Reads a text member of a document, empty where it is missing or no string.
fn string_field(value: &Json, key: &str) -> (r: String)
    ensures
        r@ == text_member(value@, key@),
{
    match value.get(key) {
        Some(j) => match j.as_str() {
            Some(s) => s.to_owned(),
            None => String::new(),
        },
        None => String::new(),
    }
}

/// Reads one notification.
fn read_notification(value: &Json) -> (r: Option<Notification>)
    ensures
        match r {
            Some(n) => notification_of(value@) == Some(n@),
            None => notification_of(value@) is None,
        },
{
    match value.get("id") {
        Some(j) => match j.as_u64() {
            Some(id) => {
                let actions = read_actions(value);
                Some(
                    Notification {
                        id,
                        app: string_field(value, "app_name"),
                        summary: string_field(value, "summary"),
                        body: string_field(value, "body"),
                        actions,
                    },
                )
            },
            None => None,
        },
        None => None,
    }
}

/// Reads the notifications out of a listing.
pub fn read_listing(doc: &Option<Json>) -> (r: Vec<Notification>)
    ensures
        notification_views(r@) == listed(
            match doc {
                Some(j) => Some(j@),
                None => None,
            },
        ),
{
    let mut out: Vec<Notification> = Vec::new();
    assert(notification_views(out@) =~= Seq::empty());
    match doc {
        Some(j) => match j.as_array() {
            Some(v) => {
                let ghost all = crate::json::views(v@);
                let mut i: usize = 0;
                assert(all.subrange(0, 0) =~= Seq::empty());
                while i < v.len()
                    invariant
                        i <= v@.len(),
                        all == crate::json::views(v@),
                        notification_views(out@) == notifications_in(all.subrange(0, i as int)),
                    decreases v@.len() - i,
                {
                    let ghost t = all.subrange(0, i + 1);
                    assert(t.subrange(0, t.len() - 1) =~= all.subrange(0, i as int));
                    assert(t[t.len() - 1] == v@[i as int]@);
                    let ghost rest = notification_views(out@);
                    if let Some(n) = read_notification(&v[i]) {
                        let ghost nv = n@;
                        out.push(n);
                        assert(notification_views(out@) =~= rest.push(nv));
                    }
                    i += 1;
                }
                assert(all.subrange(0, v@.len() as int) =~= all);
            },
            None => {},
        },
        None => {},
    }
    out
}

/// Reads the output of `makoctl list -j`; there is none where the command
/// could not run or failed.
pub fn load_notifications(output: Option<Vec<u8>>) -> (r: Vec<Notification>)
    ensures
        notification_views(r@) == listing(output),
{
    match output {
        Some(bytes) => {
            let doc = parse_json(bytes.as_slice());
            read_listing(&doc)
        },
        None => {
            let out: Vec<Notification> = Vec::new();
            assert(notification_views(out@) =~= Seq::empty());
            out
        },
    }
}

/// Whether one of the lines is this word, white space aside.
fn any_line_is(ls: &Vec<String>, word: &str) -> (r: bool)
    ensures
        r == some_line_is(texts(ls@), word@),
{
    let ghost all = texts(ls@);
    let mut i: usize = 0;
    while i < ls.len()
        invariant
            i <= ls@.len(),
            texts(ls@) == all,
            forall|k: int| 0 <= k < i ==> crate::text::trimmed(#[trigger] all[k]) != word@,
        decreases ls@.len() - i,
    {
        let t = trim(ls[i].as_str());
        assert(all[i as int] == ls@[i as int]@);
        if same(t.as_str(), word) {
            return true;
        }
        i += 1;
    }
    false
}

/// Reads the output of `makoctl mode`; there is none where the command could
/// not run.
pub fn load_dnd(output: Option<Vec<u8>>) -> (r: bool)
    ensures
        r == dnd_mode(output),
{
    match output {
        Some(bytes) => match from_utf8(bytes.as_slice()) {
            Some(modes) => {
                let ls = split_lines(modes.as_str());
                any_line_is(&ls, "do-not-disturb")
            },
            None => false,
        },
        None => false,
    }
}

/// Whether two actions are equal.
fn same_action(a: &NotificationAction, b: &NotificationAction) -> (r: bool)
    ensures
        r == (a@ == b@),
{
    a.key == b.key && a.label == b.label
}

/// Whether two notifications are equal.
fn same_notification(a: &Notification, b: &Notification) -> (r: bool)
    ensures
        r == (a@ == b@),
{
    if a.id != b.id || a.app != b.app || a.summary != b.summary || a.body != b.body
        || a.actions.len() != b.actions.len() {
        assert(a@.actions.len() == a.actions@.len());
        assert(b@.actions.len() == b.actions@.len());
        return false;
    }
    let mut i: usize = 0;
    while i < a.actions.len()
        invariant
            i <= a.actions@.len(),
            a.actions@.len() == b.actions@.len(),
            forall|k: int| 0 <= k < i ==> (#[trigger] a.actions@[k])@ == b.actions@[k]@,
        decreases a.actions@.len() - i,
    {
        if !same_action(&a.actions[i], &b.actions[i]) {
            assert(a@.actions[i as int] != b@.actions[i as int]);
            return false;
        }
        i += 1;
    }
    assert(a@.actions =~= b@.actions);
    true
}

/// Whether two lists of notifications are equal.
fn same_list(a: &Vec<Notification>, b: &Vec<Notification>) -> (r: bool)
    ensures
        r == (notification_views(a@) == notification_views(b@)),
{
    if a.len() != b.len() {
        assert(notification_views(a@).len() != notification_views(b@).len());
        return false;
    }
    let mut i: usize = 0;
    while i < a.len()
        invariant
            i <= a@.len(),
            a@.len() == b@.len(),
            forall|k: int| 0 <= k < i ==> (#[trigger] a@[k])@ == b@[k]@,
        decreases a@.len() - i,
    {
        if !same_notification(&a[i], &b[i]) {
            assert(notification_views(a@)[i as int] != notification_views(b@)[i as int]);
            return false;
        }
        i += 1;
    }
    assert(notification_views(a@) =~= notification_views(b@));
    true
}

/// The non-empty ones of these texts, in their order.
pub open spec fn non_empty(parts: Seq<Seq<char>>) -> Seq<Seq<char>>
    decreases parts.len(),
{
    if parts.len() == 0 {
        parts
    } else {
        let rest = non_empty(parts.subrange(0, parts.len() - 1));
        let last = parts[parts.len() - 1];
        if last.len() == 0 {
            rest
        } else {
            rest.push(last)
        }
    }
}

/// What is shown of a notification: application, summary and body, as far as
/// they are not empty, with a colon between them.
pub open spec fn notification_text(n: NotificationView) -> Seq<char> {
    joined(non_empty(seq![n.app, n.summary, n.body]), ": "@)
}

/// The notification list, the notification on show and the do-not-disturb mode.
pub struct NotificationManager {
    notifications: Vec<Notification>,
    index: usize,
    dnd: bool,
    last_refresh: u64,
}

impl NotificationManager {
    /// The notifications.
    pub closed spec fn list(&self) -> Seq<NotificationView> {
        notification_views(self.notifications@)
    }

    /// The position of the notification on show.
    pub closed spec fn position(&self) -> nat {
        self.index as nat
    }

    /// Whether do-not-disturb is on.
    pub closed spec fn dnd(&self) -> bool {
        self.dnd
    }

    /// When the list was last read, in nanoseconds.
    pub closed spec fn read_at(&self) -> u64 {
        self.last_refresh
    }

    /// The position is that of a notification, or zero without any.
    pub open spec fn wf(&self) -> bool {
        self.position() < self.list().len() || self.position() == 0
    }

    /// The notification on show.
    pub open spec fn current(&self) -> Option<NotificationView> {
        if self.position() < self.list().len() {
            Some(self.list()[self.position() as int])
        } else {
            None
        }
    }

    /// The actions of the notification on show.
    pub open spec fn offered(&self) -> Seq<ActionView> {
        match self.current() {
            Some(n) => n.actions,
            None => Seq::empty(),
        }
    }

    /// Whether there is more than one notification.
    pub open spec fn navigable(&self) -> bool {
        self.list().len() > 1
    }

    /// Where the position goes when the list becomes one of `len`
    /// notifications.
    pub open spec fn kept_position(&self, len: nat) -> nat {
        if self.position() < len {
            self.position()
        } else if len == 0 {
            0
        } else {
            (len - 1) as nat
        }
    }

    /// The state after reading a new listing.
    pub open spec fn reloaded(
        &self,
        new: &NotificationManager,
        now: u64,
        output: Option<Vec<u8>>,
        modes: Option<Vec<u8>>,
    ) -> bool {
        &&& new.list() == listing(output)
        &&& new.position() == self.kept_position(listing(output).len())
        &&& new.dnd() == dnd_mode(modes)
        &&& new.read_at() == now
    }

    /// `count` numbered notifications, read at time zero.
    pub fn with_count(count: usize) -> (r: NotificationManager)
        ensures
            r.wf(),
            r.position() == 0,
            !r.dnd(),
            r.read_at() == 0,
            r.list() == Seq::new(
                count as nat,
                |i: int|
                    NotificationView {
                        id: i as u64,
                        app: "app"@,
                        summary: "summary "@ + decimal(i as nat),
                        body: Seq::empty(),
                        actions: Seq::empty(),
                    },
            ),
    {
        let mut notifications: Vec<Notification> = Vec::new();
        let mut i: usize = 0;
        while i < count
            invariant
                i <= count,
                notifications@.len() == i,
                forall|k: int|
                    0 <= k < i ==> (#[trigger] notifications@[k])@ == (NotificationView {
                        id: k as u64,
                        app: "app"@,
                        summary: "summary "@ + decimal(k as nat),
                        body: Seq::empty(),
                        actions: Seq::empty(),
                    }),
            decreases count - i,
        {
            let summary = "summary ".to_owned().concat(decimal_text(i as u64).as_str());
            let n = Notification {
                id: i as u64,
                app: "app".to_owned(),
                summary,
                body: String::new(),
                actions: Vec::new(),
            };
            assert(n@.actions =~= Seq::empty());
            notifications.push(n);
            i += 1;
        }
        let r = NotificationManager { notifications, index: 0, dnd: false, last_refresh: 0 };
        assert(r.list() =~= Seq::new(
            count as nat,
            |i: int|
                NotificationView {
                    id: i as u64,
                    app: "app"@,
                    summary: "summary "@ + decimal(i as nat),
                    body: Seq::empty(),
                    actions: Seq::empty(),
                },
        ));
        r
    }

    /// One notification that offers an action for each label, read at time
    /// zero. The key of an action is its label in lower case.
    pub fn with_actions(labels: &[&str]) -> (r: NotificationManager)
        ensures
            r.wf(),
            r.position() == 0,
            !r.dnd(),
            r.read_at() == 0,
            r.list() == seq![
                NotificationView {
                    id: 1,
                    app: "app"@,
                    summary: "summary"@,
                    body: Seq::empty(),
                    actions: Seq::new(
                        labels@.len(),
                        |i: int| ActionView { key: lowercase(labels@[i]@), label: labels@[i]@ },
                    ),
                },
            ],
    {
        let mut actions: Vec<NotificationAction> = Vec::new();
        let n = labels.len();
        let mut i: usize = 0;
        while i < n
            invariant
                i <= n,
                n == labels@.len(),
                actions@.len() == i,
                forall|k: int|
                    0 <= k < i ==> (#[trigger] actions@[k])@ == (ActionView {
                        key: lowercase(labels@[k]@),
                        label: labels@[k]@,
                    }),
            decreases n - i,
        {
            let key = to_lowercase(labels[i]);
            actions.push(NotificationAction { key, label: labels[i].to_owned() });
            i += 1;
        }
        let n = Notification {
            id: 1,
            app: "app".to_owned(),
            summary: "summary".to_owned(),
            body: String::new(),
            actions,
        };
        assert(n@.actions =~= Seq::new(
            labels@.len(),
            |i: int| ActionView { key: lowercase(labels@[i]@), label: labels@[i]@ },
        ));
        let mut notifications: Vec<Notification> = Vec::new();
        notifications.push(n);
        let r = NotificationManager { notifications, index: 0, dnd: false, last_refresh: 0 };
        assert(r.list() =~= seq![n@]);
        r
    }

    /// A manager with nothing in it.
    fn empty(now: u64) -> (r: NotificationManager)
        ensures
            r.list() == Seq::<NotificationView>::empty(),
            r.position() == 0,
            !r.dnd(),
            r.read_at() == now,
    {
        let r = NotificationManager {
            notifications: Vec::new(),
            index: 0,
            dnd: false,
            last_refresh: now,
        };
        assert(r.list() =~= Seq::empty());
        r
    }

    /// Starts with what the first listing holds.
    pub fn new(now: u64, output: Option<Vec<u8>>, modes: Option<Vec<u8>>) -> (r: NotificationManager)
        ensures
            r.wf(),
            r.list() == listing(output),
            r.position() == 0,
            r.dnd() == dnd_mode(modes),
            r.read_at() == now,
    {
        let mut mgr = NotificationManager::empty(now);
        mgr.reload(now, output, modes);
        mgr
    }

    /// Whether the listing is old enough to be read again.
    pub fn refresh_due(&self, now: u64) -> (r: bool)
        ensures
            r == (now - self.read_at() >= REFRESH),
            r <==> now - self.read_at() >= 1_000_000_000,
    {
        now.saturating_sub(self.last_refresh) >= REFRESH
    }

    /// Takes over a new listing, whatever the age of the old one. Tells
    /// whether anything that is shown has changed.
    pub fn reload(&mut self, now: u64, output: Option<Vec<u8>>, modes: Option<Vec<u8>>) -> (r: bool)
        ensures
            final(self).wf(),
            old(self).reloaded(final(self), now, output, modes),
            r == (old(self).list() != final(self).list() || old(self).position() != final(self).position() || old(self).dnd() != final(self).dnd()),
    {
        let notifications = load_notifications(output);
        let dnd = load_dnd(modes);
        let index: usize = if self.index >= notifications.len() {
            if notifications.len() == 0 {
                0
            } else {
                notifications.len() - 1
            }
        } else {
            self.index
        };
        let unchanged = same_list(&self.notifications, &notifications) && self.index == index
            && self.dnd == dnd;
        self.notifications = notifications;
        self.index = index;
        self.dnd = dnd;
        self.last_refresh = now;
        !unchanged
    }

    /// Takes over a new listing when the old one is due to be read again, and
    /// keeps everything otherwise. Tells whether anything that is shown has
    /// changed.
    pub fn refresh(
        &mut self,
        now: u64,
        output: Option<Vec<u8>>,
        modes: Option<Vec<u8>>,
    ) -> (r: bool)
        ensures
            now - old(self).read_at() < REFRESH ==> !r && *final(self) == *old(self),
            now - old(self).read_at() >= REFRESH ==> {
                &&& final(self).wf()
                &&& old(self).reloaded(final(self), now, output, modes)
                &&& r == (old(self).list() != final(self).list() || old(self).position() != final(self).position() || old(self).dnd() != final(self).dnd())
            },
    {
        if !self.refresh_due(now) {
            return false;
        }
        self.reload(now, output, modes)
    }

    /// How many notifications there are, in decimal.
    pub fn count_text(&self) -> (r: String)
        ensures
            r@ == decimal(self.list().len()),
    {
        decimal_text(self.notifications.len() as u64)
    }

    /// What is shown of the current notification.
    pub fn current_text(&self) -> (r: String)
        ensures
            r@ == match self.current() {
                Some(n) => notification_text(n),
                None => "No notifications"@,
            },
    {
        if self.index >= self.notifications.len() {
            return "No notifications".to_owned();
        }
        let n = &self.notifications[self.index];
        let mut parts: Vec<String> = Vec::new();
        proof {
            let all = seq![n@.app, n@.summary, n@.body];
            reveal_with_fuel(non_empty, 4);
            assert(all.subrange(0, 2) =~= seq![n@.app, n@.summary]);
            assert(seq![n@.app, n@.summary].subrange(0, 1) =~= seq![n@.app]);
            assert(seq![n@.app].subrange(0, 0) =~= Seq::<Seq<char>>::empty());
            assert(texts(parts@) =~= Seq::<Seq<char>>::empty());
        }
        if !n.app.as_str().is_empty() {
            parts.push(n.app.clone());
        }
        assert(texts(parts@) =~= non_empty(seq![n@.app]));
        if !n.summary.as_str().is_empty() {
            let ghost earlier = texts(parts@);
            parts.push(n.summary.clone());
            assert(texts(parts@) =~= earlier.push(n@.summary));
        }
        assert(texts(parts@) =~= non_empty(seq![n@.app, n@.summary]));
        if !n.body.as_str().is_empty() {
            let ghost earlier = texts(parts@);
            parts.push(n.body.clone());
            assert(texts(parts@) =~= earlier.push(n@.body));
        }
        assert(texts(parts@) =~= non_empty(seq![n@.app, n@.summary, n@.body]));
        join(&parts, ": ")
    }

    /// The do-not-disturb state in words.
    pub fn dnd_text(&self) -> (r: String)
        ensures
            r@ == if self.dnd() {
                "DnD on"@
            } else {
                "DnD off"@
            },
    {
        if self.dnd {
            "DnD on".to_owned()
        } else {
            "DnD off".to_owned()
        }
    }

    /// Whether do-not-disturb is on.
    pub fn dnd_enabled(&self) -> (r: bool)
        ensures
            r == self.dnd(),
    {
        self.dnd
    }

    /// Goes to the notification before, and stays at the first.
    pub fn previous(&mut self)
        ensures
            final(self).list() == old(self).list(),
            final(self).dnd() == old(self).dnd(),
            final(self).read_at() == old(self).read_at(),
            final(self).position() == if old(self).position() == 0 {
                0
            } else {
                (old(self).position() - 1) as nat
            },
            old(self).wf() ==> final(self).wf(),
    {
        self.index = self.index.saturating_sub(1);
    }

    /// Goes to the notification behind, and stays at the last.
    pub fn next(&mut self)
        ensures
            final(self).list() == old(self).list(),
            final(self).dnd() == old(self).dnd(),
            final(self).read_at() == old(self).read_at(),
            final(self).position() == if old(self).position() + 1 < old(self).list().len() {
                old(self).position() + 1
            } else {
                old(self).position()
            },
            old(self).wf() ==> final(self).wf(),
    {
        let n = self.notifications.len();
        if n > 0 && self.index < n - 1 {
            self.index = self.index + 1;
        }
    }

    /// Whether there is more than one notification.
    pub fn can_navigate(&self) -> (r: bool)
        ensures
            r == self.navigable(),
    {
        self.notifications.len() > 1
    }

    /// The `makoctl` arguments that carry out the default action of the
    /// current notification, if it offers any action.
    pub fn invoke_current(&self) -> (r: Option<Vec<String>>)
        ensures
            match r {
                Some(args) => {
                    &&& self.current() is Some
                    &&& self.offered().len() > 0
                    &&& texts(args@) == seq!["invoke"@, "-n"@, decimal(self.current()->0.id as nat)]
                },
                None => self.current() is None || self.offered().len() == 0,
            },
    {
        if self.index >= self.notifications.len() {
            return None;
        }
        let n = &self.notifications[self.index];
        if n.actions.len() == 0 {
            return None;
        }
        let mut args: Vec<String> = Vec::new();
        args.push("invoke".to_owned());
        args.push("-n".to_owned());
        args.push(decimal_text(n.id));
        assert(texts(args@) =~= seq!["invoke"@, "-n"@, decimal(n.id as nat)]);
        Some(args)
    }

    /// The actions of the current notification.
    pub fn current_actions(&self) -> (r: &[NotificationAction])
        ensures
            action_views(r@) == self.offered(),
    {
        if self.index < self.notifications.len() {
            self.notifications[self.index].actions.as_slice()
        } else {
            let none: &[NotificationAction] = &[];
            assert(action_views(none@) =~= Seq::empty());
            none
        }
    }

    /// The `makoctl` arguments that carry out one action of the current
    /// notification, if there is such an action.
    pub fn invoke_action(&self, action_index: usize) -> (r: Option<Vec<String>>)
        ensures
            match r {
                Some(args) => {
                    &&& self.current() is Some
                    &&& action_index < self.offered().len()
                    &&& texts(args@) == seq![
                        "invoke"@,
                        "-n"@,
                        decimal(self.current()->0.id as nat),
                        self.offered()[action_index as int].key,
                    ]
                },
                None => action_index >= self.offered().len(),
            },
    {
        if self.index >= self.notifications.len() {
            return None;
        }
        let n = &self.notifications[self.index];
        if action_index >= n.actions.len() {
            return None;
        }
        let mut args: Vec<String> = Vec::new();
        args.push("invoke".to_owned());
        args.push("-n".to_owned());
        args.push(decimal_text(n.id));
        args.push(n.actions[action_index].key.clone());
        assert(texts(args@) =~= seq![
            "invoke"@,
            "-n"@,
            decimal(n.id as nat),
            n.actions@[action_index as int].key@,
        ]);
        Some(args)
    }

    /// The `makoctl` arguments that dismiss the current notification, if there
    /// is one. Once they have run, [`NotificationManager::reload`] takes over
    /// the new listing.
    pub fn dismiss_current(&self) -> (r: Option<Vec<String>>)
        ensures
            match r {
                Some(args) => {
                    &&& self.current() is Some
                    &&& texts(args@) == seq!["dismiss"@, "-n"@, decimal(self.current()->0.id as nat)]
                },
                None => self.current() is None,
            },
    {
        if self.index >= self.notifications.len() {
            return None;
        }
        let n = &self.notifications[self.index];
        let mut args: Vec<String> = Vec::new();
        args.push("dismiss".to_owned());
        args.push("-n".to_owned());
        args.push(decimal_text(n.id));
        assert(texts(args@) =~= seq!["dismiss"@, "-n"@, decimal(n.id as nat)]);
        Some(args)
    }

    /// The `makoctl` arguments that toggle do-not-disturb. Once they have run,
    /// [`NotificationManager::reload`] takes over the new modes.
    pub fn toggle_dnd(&self) -> (r: Vec<String>)
        ensures
            texts(r@) == seq!["mode"@, "-t"@, "do-not-disturb"@],
    {
        let mut args: Vec<String> = Vec::new();
        args.push("mode".to_owned());
        args.push("-t".to_owned());
        args.push("do-not-disturb".to_owned());
        assert(texts(args@) =~= seq!["mode"@, "-t"@, "do-not-disturb"@]);
        args
    }
}

/// A document with an unsigned number as its id is a notification with that id,
/// with the application, the summary and the body that it names, each empty where
/// it is missing; any other document is none.
pub proof fn notification_is_read(v: JsonView)
    ensures
        ({
            let text = |key: Seq<char>| match v.get(key) {
                Some(j) => match j.string() {
                    Some(s) => s,
                    None => Seq::<char>::empty(),
                },
                None => Seq::<char>::empty(),
            };
            match v.get("id"@) {
                Some(j) => match j.unsigned() {
                    Some(id) => {
                        &&& notification_of(v) matches Some(n)
                        &&& n.id == id
                        &&& n.app == text("app_name"@)
                        &&& n.summary == text("summary"@)
                        &&& n.body == text("body"@)
                    },
                    None => notification_of(v) is None,
                },
                None => notification_of(v) is None,
            }
        }),
{
}

/// The notifications of a listing come in the order of its documents, one for each
/// document that is one.
pub proof fn listing_keeps_order(a: Seq<JsonView>, v: JsonView)
    ensures
        notifications_in(Seq::empty()).len() == 0,
        notification_of(v) matches Some(n) ==> notifications_in(a.push(v)) == notifications_in(
            a,
        ).push(n),
        notification_of(v) is None ==> notifications_in(a.push(v)) == notifications_in(a),
        listed(Some(JsonView { node: NodeView::Array(a), ..v })) == notifications_in(a),
        listed(None).len() == 0,
{
    let all = a.push(v);
    assert(all.subrange(0, all.len() - 1) =~= a);
}

proof fn lemma_entries(o: Seq<(Seq<char>, JsonView)>, a: ActionView)
    ensures
        action_entries(o).contains(a) <==> exists|i: int|
            0 <= i < o.len() && (#[trigger] o[i]).0 == a.key && o[i].1.string() == Some(a.label),
    decreases o.len(),
{
    if o.len() > 0 {
        let front = o.subrange(0, o.len() - 1);
        let last = o[o.len() - 1];
        lemma_entries(front, a);
        let before = action_entries(front);
        let all = action_entries(o);
        if before.contains(a) {
            let i = choose|i: int|
                0 <= i < front.len() && (#[trigger] front[i]).0 == a.key && front[i].1.string()
                    == Some(a.label);
            assert(o[i] == front[i]);
            let k = choose|k: int| 0 <= k < before.len() && before[k] == a;
            assert(all[k] == a);
        }
        if last.1.string() is Some {
            let added = ActionView { key: last.0, label: last.1.string()->0 };
            assert(all == before.push(added));
            assert(all[all.len() - 1] == added);
            if all.contains(a) {
                let k = choose|k: int| 0 <= k < all.len() && all[k] == a;
                if k < before.len() {
                    assert(before[k] == a);
                } else {
                    assert(o[o.len() - 1].0 == a.key);
                }
            }
        }
        if exists|i: int|
            0 <= i < o.len() && (#[trigger] o[i]).0 == a.key && o[i].1.string() == Some(a.label) {
            let i = choose|i: int|
                0 <= i < o.len() && (#[trigger] o[i]).0 == a.key && o[i].1.string() == Some(
                    a.label,
                );
            if i < front.len() {
                assert(front[i] == o[i]);
            } else {
                assert(all[all.len() - 1] == a);
            }
        }
    }
}

/// The actions of a notification are the members of its `actions` that are text:
/// the name of a member is the key, and its text the label. They come in the order
/// of their labels.
pub proof fn actions_are_keys_with_labels(v: JsonView, o: Seq<(Seq<char>, JsonView)>, a: ActionView)
    requires
        v.get("actions"@) matches Some(j) && j.node == NodeView::Object(o),
    ensures
        in_label_order(actions_of(v)),
        actions_of(v).contains(a) <==> exists|i: int|
            0 <= i < o.len() && (#[trigger] o[i]).0 == a.key && o[i].1.string() == Some(a.label),
{
    let entries = action_entries(o);
    lemma_entries(o, a);
    actions_are_sorted(entries);
    entries.to_multiset_ensures();
    sorted_actions(entries).to_multiset_ensures();
    assert(entries.contains(a) <==> entries.to_multiset().count(a) > 0);
    assert(sorted_actions(entries).contains(a) <==> sorted_actions(entries).to_multiset().count(a)
        > 0);
}

/// What is shown of a notification is its application, its summary and its body, in
/// this order, with a colon and a space between those that are not empty.
pub proof fn notification_reads_in_order(n: NotificationView)
    ensures
        ({
            let text = notification_text(n);
            let sep = seq![':', ' '];
            let (a, s, b) = (n.app, n.summary, n.body);
            &&& a.len() > 0 && s.len() > 0 && b.len() > 0 ==> text == a + sep + s + sep + b
            &&& a.len() > 0 && s.len() > 0 && b.len() == 0 ==> text == a + sep + s
            &&& a.len() > 0 && s.len() == 0 && b.len() > 0 ==> text == a + sep + b
            &&& a.len() == 0 && s.len() > 0 && b.len() > 0 ==> text == s + sep + b
            &&& s.len() == 0 && b.len() == 0 ==> text == a
            &&& a.len() == 0 && b.len() == 0 ==> text == s
            &&& a.len() == 0 && s.len() == 0 ==> text == b
        }),
{
    reveal_strlit(": ");
    assert(": "@ =~= seq![':', ' ']);
    let all = seq![n.app, n.summary, n.body];
    reveal_with_fuel(non_empty, 4);
    reveal_with_fuel(joined, 4);
    let two = seq![n.app, n.summary];
    assert(all.subrange(0, 2) =~= two);
    assert(two.subrange(0, 1) =~= seq![n.app]);
    assert(seq![n.app].subrange(0, 0) =~= Seq::<Seq<char>>::empty());
    let parts = non_empty(all);
    if parts.len() == 0 {
        assert(n.app =~= Seq::empty());
        assert(n.summary =~= Seq::empty());
        assert(n.body =~= Seq::empty());
    } else if parts.len() == 2 {
        assert(parts.subrange(0, 1) =~= seq![parts[0]]);
    } else if parts.len() == 3 {
        assert(parts.subrange(0, 2) =~= seq![parts[0], parts[1]]);
        assert(seq![parts[0], parts[1]].subrange(0, 1) =~= seq![parts[0]]);
    }
}

/// Reading the list again keeps the place in it; where the list has become too
/// short for that, its last notification is on show.
pub proof fn place_in_the_list_is_kept(
    before: &NotificationManager,
    after: &NotificationManager,
    now: u64,
    output: Option<Vec<u8>>,
    modes: Option<Vec<u8>>,
)
    requires
        before.reloaded(after, now, output, modes),
    ensures
        after.wf(),
        after.list() == listing(output),
        after.list().len() > 0 ==> after.current() is Some,
        before.position() < after.list().len() ==> after.position() == before.position(),
        after.list().len() > 0 && before.position() >= after.list().len() ==> after.current() == Some(
            after.list().last(),
        ),
        output is None ==> after.list().len() == 0,
        modes is None ==> !after.dnd(),
{
}

} // verus!
