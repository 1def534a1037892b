//! What the system is doing: processor, memory, the active window and
//! workspace, and the music that is playing.

use vstd::prelude::*;
use vstd::string::*;

use crate::command::text_opt;
use crate::json::{parse_json, string_in, Json, JsonView};
use crate::text::{
    all_digits, begins_with, byte_texts, contains, decimal, decimal_text, ends_with, fields,
    finishes_with, from_utf8, join_path, lines, lower, number_up_to, occurs_in, parse_up_to,
    path_joined, same, same_ignoring_case, split_bytes, split_char, split_lines, starts_with, texts,
    to_ascii_lowercase, trim, trim_by, trimmed, trimmed_by, utf8_text,
};

verus! {

/// How often the statistics, the desktop and the player are asked, in
/// nanoseconds.
pub const SYSTEM_STATS_REFRESH: u64 = 2_000_000_000;

pub const DESKTOP_INFO_REFRESH: u64 = 250_000_000;

pub const NOW_PLAYING_REFRESH: u64 = 1_000_000_000;

/// The latest that is known of the system. The processor usage is in per cent
/// with 32 binary places; the time of the last update is in nanoseconds.
pub struct SystemInfo {
    pub cpu_usage: u64,
    pub memory_usage: u64,
    pub memory_total: u64,
    pub active_window: String,
    pub active_workspace: String,
    pub now_playing: String,
    pub show_now_playing: bool,
    pub desktop_info_available: bool,
    pub last_update: u64,
}

/// The mathematical counterpart of [`SystemInfo`].
#[verifier::ext_equal]
pub struct SystemView {
    pub cpu_usage: u64,
    pub memory_usage: u64,
    pub memory_total: u64,
    pub active_window: Seq<char>,
    pub active_workspace: Seq<char>,
    pub now_playing: Seq<char>,
    pub show_now_playing: bool,
    pub desktop_info_available: bool,
    pub last_update: u64,
}

impl View for SystemInfo {
    type V = SystemView;

    open spec fn view(&self) -> SystemView {
        SystemView {
            cpu_usage: self.cpu_usage,
            memory_usage: self.memory_usage,
            memory_total: self.memory_total,
            active_window: self.active_window@,
            active_workspace: self.active_workspace@,
            now_playing: self.now_playing@,
            show_now_playing: self.show_now_playing,
            desktop_info_available: self.desktop_info_available,
            last_update: self.last_update,
        }
    }
}

impl SystemView {
    /// Whether the title bar shows the music.
    pub open spec fn shows_music(self) -> bool {
        self.show_now_playing && self.now_playing.len() > 0
    }

    /// What the title bar shows.
    pub open spec fn titlebar(self) -> Seq<char> {
        if self.shows_music() {
            self.now_playing
        } else {
            self.active_window
        }
    }

    /// The state with the title bar toggled.
    pub open spec fn toggled(self) -> SystemView {
        if self.now_playing.len() == 0 {
            self
        } else {
            SystemView { show_now_playing: !self.show_now_playing, ..self }
        }
    }

    /// The state with other music playing. Music that starts is shown.
    pub open spec fn playing(self, music: Seq<char>, now: u64) -> SystemView {
        SystemView {
            show_now_playing: self.show_now_playing || (self.now_playing.len() == 0 && music.len()
                > 0),
            now_playing: music,
            last_update: now,
            ..self
        }
    }
}

impl SystemInfo {
    /// Nothing known yet; music will be shown once there is any.
    pub fn new(now: u64) -> (r: SystemInfo)
        ensures
            r@ == (SystemView {
                cpu_usage: 0,
                memory_usage: 0,
                memory_total: 0,
                active_window: Seq::empty(),
                active_workspace: Seq::empty(),
                now_playing: Seq::empty(),
                show_now_playing: true,
                desktop_info_available: false,
                last_update: now,
            }),
    {
        SystemInfo {
            cpu_usage: 0,
            memory_usage: 0,
            memory_total: 0,
            active_window: String::new(),
            active_workspace: String::new(),
            now_playing: String::new(),
            show_now_playing: true,
            desktop_info_available: false,
            last_update: now,
        }
    }

    /// Takes over new statistics.
    pub fn update_system_stats(
        &mut self,
        cpu_usage: u64,
        memory_usage: u64,
        memory_total: u64,
        now: u64,
    )
        ensures
            final(self)@ == (SystemView {
                cpu_usage,
                memory_usage,
                memory_total,
                last_update: now,
                ..old(self)@
            }),
    {
        self.cpu_usage = cpu_usage;
        self.memory_usage = memory_usage;
        self.memory_total = memory_total;
        self.last_update = now;
    }

    /// Takes over what the desktop says.
    pub fn update_desktop_info(
        &mut self,
        active_window: String,
        active_workspace: String,
        desktop_info_available: bool,
        now: u64,
    )
        ensures
            final(self)@ == (SystemView {
                active_window: active_window@,
                active_workspace: active_workspace@,
                desktop_info_available,
                last_update: now,
                ..old(self)@
            }),
    {
        self.active_window = active_window;
        self.active_workspace = active_workspace;
        self.desktop_info_available = desktop_info_available;
        self.last_update = now;
    }

    /// Takes over what is playing.
    pub fn update_now_playing(&mut self, now_playing: String, now: u64)
        ensures
            final(self)@ == old(self)@.playing(now_playing@, now),
    {
        if self.now_playing.as_str().is_empty() && !now_playing.as_str().is_empty() {
            self.show_now_playing = true;
        }
        self.now_playing = now_playing;
        self.last_update = now;
    }

    /// What the title bar shows.
    pub fn titlebar_text(&self) -> (r: String)
        ensures
            r@ == self@.titlebar(),
    {
        if self.show_now_playing && !self.now_playing.as_str().is_empty() {
            self.now_playing.clone()
        } else {
            self.active_window.clone()
        }
    }

    /// Switches the title bar between the music and the window, if there is
    /// music. Tells whether it did.
    pub fn toggle_titlebar_text(&mut self) -> (r: bool)
        ensures
            final(self)@ == old(self)@.toggled(),
            r == (old(self)@.now_playing.len() > 0),
    {
        if self.now_playing.as_str().is_empty() {
            return false;
        }
        self.show_now_playing = !self.show_now_playing;
        true
    }
}

/// Toggling the title bar twice restores it.
pub proof fn toggle_twice_restores(s: SystemView)
    ensures
        s.toggled().toggled() == s,
{
}

/// With music playing, toggling goes from the music to the window and back.
pub proof fn toggle_switches_titlebar(s: SystemView)
    requires
        s.now_playing.len() > 0,
    ensures
        s.toggled().shows_music() == !s.shows_music(),
        s.shows_music() ==> s.toggled().titlebar() == s.active_window,
        !s.shows_music() ==> s.toggled().titlebar() == s.now_playing,
{
}

/// Music that starts after silence is shown, whatever was shown before.
pub proof fn new_music_is_shown(s: SystemView, first: u64, music: Seq<char>, second: u64)
    requires
        music.len() > 0,
    ensures
        s.playing(Seq::empty(), first).playing(music, second).titlebar() == music,
{
}

/// A player's text without white space and dashes at its ends.
pub fn clean_now_playing(text: &str) -> (r: String)
    ensures
        r@ == trimmed_by(text@, true),
{
    trim_by(text, true)
}

/// The text that a command wrote, empty where it failed or wrote no text.
pub open spec fn output_text(output: Option<Vec<u8>>) -> Seq<char> {
    match output {
        Some(bytes) => match utf8_text(bytes@) {
            Some(t) => t,
            None => Seq::empty(),
        },
        None => Seq::empty(),
    }
}

fn text_output(output: &Option<Vec<u8>>) -> (r: String)
    ensures
        r@ == output_text(*output),
{
    match output {
        Some(bytes) => match from_utf8(bytes.as_slice()) {
            Some(t) => t,
            None => String::new(),
        },
        None => String::new(),
    }
}

/// Whether the player says that it is playing.
pub open spec fn says_playing(status: Option<Vec<u8>>) -> bool {
    trimmed(output_text(status)) == "Playing"@
}

/// Whether a player's `status` says that it is playing, so that its `metadata`
/// is worth asking for.
pub fn is_playing(status: &Option<Vec<u8>>) -> (r: bool)
    ensures
        r == says_playing(*status),
{
    let text = text_output(status);
    let t = trim(text.as_str());
    same(t.as_str(), "Playing")
}

/// What is playing, given what the player answers to `status` and to
/// `metadata`. Each answer is absent where the command failed.
pub fn current_now_playing(status: Option<Vec<u8>>, metadata: Option<Vec<u8>>) -> (r: String)
    ensures
        r@ == if says_playing(status) {
            trimmed_by(trimmed(output_text(metadata)), true)
        } else {
            Seq::empty()
        },
{
    if !is_playing(&status) {
        return String::new();
    }
    let text = text_output(&metadata);
    let t = trim(text.as_str());
    clean_now_playing(t.as_str())
}

/// Whether one of the variables that name the desktop contains a name, whatever
/// the case of its ASCII letters.
pub open spec fn desktop_is(values: Seq<Seq<char>>, name: Seq<char>) -> bool {
    exists|i: int| 0 <= i < values.len() && occurs_in(name, lower(#[trigger] values[i]))
}

/// Whether one of the variables that name the desktop contains a name. Only
/// those that are set are given.
pub fn current_desktop_contains(values: &Vec<String>, name: &str) -> (r: bool)
    ensures
        r == desktop_is(texts(values@), name@),
{
    let n = values.len();
    let mut i: usize = 0;
    while i < n
        invariant
            i <= n,
            n == values@.len(),
            forall|k: int| 0 <= k < i ==> !occurs_in(name@, lower(#[trigger] texts(values@)[k])),
        decreases n - i,
    {
        let l = to_ascii_lowercase(values[i].as_str());
        assert(texts(values@)[i as int] == values@[i as int]@);
        if contains(l.as_str(), name) {
            return true;
        }
        i += 1;
    }
    false
}

/// One entry of `/proc`: its name, what its `comm` file holds, and the user that
/// it belongs to, as far as they could be read.
pub struct ProcEntry {
    pub pid: String,
    pub comm: Option<String>,
    pub uid: Option<u32>,
}

/// Whether an entry is a process of that name, whatever the case of its ASCII
/// letters.
pub open spec fn is_process(p: ProcEntry, name: Seq<char>) -> bool {
    all_digits(p.pid@) && match p.comm {
        Some(c) => lower(trimmed(c@)) == lower(name),
        None => lower(Seq::<char>::empty()) == lower(name),
    }
}

/// The position of the first process of that name.
pub open spec fn first_process(procs: Seq<ProcEntry>, name: Seq<char>) -> Option<nat>
    decreases procs.len(),
{
    if procs.len() == 0 {
        None
    } else {
        match first_process(procs.drop_last(), name) {
            Some(i) => Some(i),
            None => if is_process(procs.last(), name) {
                Some((procs.len() - 1) as nat)
            } else {
                None
            },
        }
    }
}

/// Whether a text is made of digits only.
fn only_digits(s: &str) -> (r: bool)
    ensures
        r == all_digits(s@),
{
    let v = crate::text::chars(s);
    let n = v.len();
    let mut i: usize = 0;
    while i < n
        invariant
            i <= n,
            n == v@.len(),
            v@ == s@,
            forall|k: int| 0 <= k < i ==> crate::text::is_digit(#[trigger] v@[k]),
        decreases n - i,
    {
        let c = v[i];
        if !('0' <= c && c <= '9') {
            assert(!crate::text::is_digit(s@[i as int]));
            return false;
        }
        i += 1;
    }
    true
}

/// Whether an entry is a process of that name.
pub fn process_named(p: &ProcEntry, name: &str) -> (r: bool)
    ensures
        r == is_process(*p, name@),
{
    if !only_digits(p.pid.as_str()) {
        return false;
    }
    match &p.comm {
        Some(c) => {
            let t = trim(c.as_str());
            same_ignoring_case(t.as_str(), name)
        },
        None => {
            proof {
                reveal_strlit("");
            }
            assert(""@ =~= Seq::<char>::empty());
            same_ignoring_case("", name)
        },
    }
}

proof fn lemma_first_process_grows(procs: Seq<ProcEntry>, name: Seq<char>, len: int)
    requires
        0 <= len <= procs.len(),
        first_process(procs.subrange(0, len), name) is Some,
    ensures
        first_process(procs, name) == first_process(procs.subrange(0, len), name),
    decreases procs.len() - len,
{
    if len == procs.len() {
        assert(procs.subrange(0, len) =~= procs);
    } else {
        assert(procs.subrange(0, len + 1).drop_last() =~= procs.subrange(0, len));
        lemma_first_process_grows(procs, name, len + 1);
    }
}

/// Finds the first process of that name.
fn find_process(procs: &Vec<ProcEntry>, name: &str) -> (r: Option<usize>)
    ensures
        match r {
            Some(i) => i < procs@.len() && first_process(procs@, name@) == Some(i as nat),
            None => first_process(procs@, name@) is None,
        },
{
    let n = procs.len();
    let mut i: usize = 0;
    assert(procs@.subrange(0, 0) =~= Seq::empty());
    while i < n
        invariant
            i <= n,
            n == procs@.len(),
            first_process(procs@.subrange(0, i as int), name@) is None,
        decreases n - i,
    {
        let ghost seen = procs@.subrange(0, i + 1);
        assert(seen.drop_last() =~= procs@.subrange(0, i as int));
        assert(seen.last() == procs@[i as int]);
        if process_named(&procs[i], name) {
            proof {
                lemma_first_process_grows(procs@, name@, i + 1);
            }
            return Some(i);
        }
        i += 1;
    }
    assert(procs@.subrange(0, n as int) =~= procs@);
    None
}

/// Whether a process of that name is running. One whose name could not be read
/// does not count.
pub open spec fn runs(procs: Seq<ProcEntry>, name: Seq<char>) -> bool {
    exists|i: int|
        0 <= i < procs.len() && (#[trigger] procs[i]).comm is Some && is_process(procs[i], name)
}

/// Whether a process of that name is running.
pub fn process_running(procs: &Vec<ProcEntry>, name: &str) -> (r: bool)
    ensures
        r == runs(procs@, name@),
{
    let n = procs.len();
    let mut i: usize = 0;
    while i < n
        invariant
            i <= n,
            n == procs@.len(),
            forall|k: int|
                0 <= k < i ==> !((#[trigger] procs@[k]).comm is Some && is_process(
                    procs@[k],
                    name@,
                )),
        decreases n - i,
    {
        if procs[i].comm.is_some() && process_named(&procs[i], name) {
            return true;
        }
        i += 1;
    }
    false
}

/// The user of the first process of that name.
pub open spec fn user_of(procs: Seq<ProcEntry>, name: Seq<char>) -> Option<u32> {
    match first_process(procs, name) {
        Some(i) => procs[i as int].uid,
        None => None,
    }
}

/// The user of the first process of that name, if it can be told.
pub fn process_uid(procs: &Vec<ProcEntry>, name: &str) -> (r: Option<u32>)
    ensures
        r == user_of(procs@, name@),
{
    match find_process(procs, name) {
        Some(i) => procs[i].uid,
        None => None,
    }
}

/// Whether this is a session of the COSMIC desktop.
pub fn is_cosmic_session(desktops: &Vec<String>, procs: &Vec<ProcEntry>) -> (r: bool)
    ensures
        r == (desktop_is(texts(desktops@), "cosmic"@) || runs(procs@, "cosmic-comp"@)),
{
    current_desktop_contains(desktops, "cosmic") || process_running(procs, "cosmic-comp")
}

/// The user that a line of the password file is about, and their id.
pub open spec fn passwd_entry(line: Seq<char>) -> Option<(Seq<char>, u32)> {
    let f = fields(line, ':');
    if f.len() < 3 {
        None
    } else {
        match number_up_to(f[2], u32::MAX as nat) {
            Some(n) => Some((f[0], n as u32)),
            None => None,
        }
    }
}

/// The first of these lines that is about the user of an id.
pub open spec fn user_in(ls: Seq<Seq<char>>, uid: u32) -> Option<Seq<char>>
    decreases ls.len(),
{
    if ls.len() == 0 {
        None
    } else {
        match user_in(ls.drop_last(), uid) {
            Some(name) => Some(name),
            None => match passwd_entry(ls.last()) {
                Some(e) => if e.1 == uid {
                    Some(e.0)
                } else {
                    None
                },
                None => None,
            },
        }
    }
}

/// The name of the user of an id, in the password file where it can be read.
pub open spec fn user_named(passwd: Option<Seq<char>>, uid: u32) -> Option<Seq<char>> {
    match passwd {
        Some(text) => user_in(lines(text), uid),
        None => None,
    }
}

proof fn lemma_user_in_grows(ls: Seq<Seq<char>>, uid: u32, len: int)
    requires
        0 <= len <= ls.len(),
        user_in(ls.subrange(0, len), uid) is Some,
    ensures
        user_in(ls, uid) == user_in(ls.subrange(0, len), uid),
    decreases ls.len() - len,
{
    if len == ls.len() {
        assert(ls.subrange(0, len) =~= ls);
    } else {
        assert(ls.subrange(0, len + 1).drop_last() =~= ls.subrange(0, len));
        lemma_user_in_grows(ls, uid, len + 1);
    }
}

/// Finds the name of the user of an id.
pub fn username_for_uid(passwd: &Option<String>, uid: u32) -> (r: Option<String>)
    ensures
        text_opt(r) == user_named(text_opt(*passwd), uid),
{
    match passwd {
        Some(text) => {
            let ls = split_lines(text.as_str());
            let ghost all = texts(ls@);
            let n = ls.len();
            let mut i: usize = 0;
            assert(all.subrange(0, 0) =~= Seq::empty());
            while i < n
                invariant
                    i <= n,
                    n == ls@.len(),
                    all == texts(ls@),
                    all == lines(text@),
                    *passwd == Some(*text),
                    user_in(all.subrange(0, i as int), uid) is None,
                decreases n - i,
            {
                let ghost seen = all.subrange(0, i + 1);
                assert(seen.drop_last() =~= all.subrange(0, i as int));
                assert(seen.last() == ls@[i as int]@);
                let f = split_char(ls[i].as_str(), ':');
                if f.len() >= 3 {
                    assert(texts(f@)[0] == f@[0]@ && texts(f@)[2] == f@[2]@);
                    match parse_up_to(f[2].as_str(), u32::MAX as u64) {
                        Some(id) => {
                            if id as u32 == uid {
                                proof {
                                    lemma_user_in_grows(all, uid, i + 1);
                                }
                                return Some(f[0].clone());
                            }
                        },
                        None => {},
                    }
                } else {
                    assert(texts(f@).len() < 3);
                }
                i += 1;
            }
            assert(all.subrange(0, n as int) =~= all);
            None
        },
        None => None,
    }
}

/// The user of a process, by name.
pub open spec fn owner_named(
    procs: Seq<ProcEntry>,
    passwd: Option<Seq<char>>,
    name: Seq<char>,
) -> Option<Seq<char>> {
    match user_of(procs, name) {
        Some(uid) => user_named(passwd, uid),
        None => None,
    }
}

/// The user whose desktop this is: the one behind `sudo`, else the one who runs
/// a known compositor.
pub fn desktop_user(
    sudo_user: Option<String>,
    procs: &Vec<ProcEntry>,
    passwd: &Option<String>,
) -> (r: Option<String>)
    ensures
        text_opt(r) == match sudo_user {
            Some(u) => Some(u@),
            None => match owner_named(procs@, text_opt(*passwd), "cosmic-comp"@) {
                Some(u) => Some(u),
                None => owner_named(procs@, text_opt(*passwd), "Hyprland"@),
            },
        },
{
    if sudo_user.is_some() {
        return sudo_user;
    }
    let cosmic = match process_uid(procs, "cosmic-comp") {
        Some(uid) => username_for_uid(passwd, uid),
        None => None,
    };
    if cosmic.is_some() {
        return cosmic;
    }
    match process_uid(procs, "Hyprland") {
        Some(uid) => username_for_uid(passwd, uid),
        None => None,
    }
}

/// Whether a file in a runtime directory is a Wayland socket.
pub open spec fn is_wayland_socket(name: Seq<char>) -> bool {
    begins_with(name, "wayland-"@) && !finishes_with(name, ".lock"@)
}

/// The first Wayland socket among these files.
pub open spec fn first_socket(names: Seq<Seq<char>>) -> Option<Seq<char>>
    decreases names.len(),
{
    if names.len() == 0 {
        None
    } else {
        match first_socket(names.drop_last()) {
            Some(n) => Some(n),
            None => if is_wayland_socket(names.last()) {
                Some(names.last())
            } else {
                None
            },
        }
    }
}

proof fn lemma_first_socket_grows(names: Seq<Seq<char>>, len: int)
    requires
        0 <= len <= names.len(),
        first_socket(names.subrange(0, len)) is Some,
    ensures
        first_socket(names) == first_socket(names.subrange(0, len)),
    decreases names.len() - len,
{
    if len == names.len() {
        assert(names.subrange(0, len) =~= names);
    } else {
        assert(names.subrange(0, len + 1).drop_last() =~= names.subrange(0, len));
        lemma_first_socket_grows(names, len + 1);
    }
}

/// Finds the Wayland display among the files of a runtime directory.
pub fn detect_wayland_display(names: &Vec<String>) -> (r: Option<String>)
    ensures
        text_opt(r) == first_socket(texts(names@)),
{
    let ghost all = texts(names@);
    let n = names.len();
    let mut i: usize = 0;
    assert(all.subrange(0, 0) =~= Seq::empty());
    while i < n
        invariant
            i <= n,
            n == names@.len(),
            all == texts(names@),
            first_socket(all.subrange(0, i as int)) is None,
        decreases n - i,
    {
        let ghost seen = all.subrange(0, i + 1);
        assert(seen.drop_last() =~= all.subrange(0, i as int));
        assert(seen.last() == names@[i as int]@);
        let name = names[i].as_str();
        if starts_with(name, "wayland-") && !ends_with(name, ".lock") {
            proof {
                lemma_first_socket_grows(all, i + 1);
            }
            return Some(names[i].clone());
        }
        i += 1;
    }
    assert(all.subrange(0, n as int) =~= all);
    None
}

/// The socket of a Hyprland instance.
pub open spec fn socket_path(runtime_dir: Seq<char>, signature: Seq<char>) -> Seq<char> {
    path_joined(path_joined(path_joined(runtime_dir, "hypr"@), signature), ".socket.sock"@)
}

/// The path of the socket of a Hyprland instance, where both its directory and
/// its signature are known.
pub fn hyprland_socket(runtime_dir: &Option<String>, signature: &Option<String>) -> (r: Option<
    String,
>)
    ensures
        text_opt(r) == match (*runtime_dir, *signature) {
            (Some(d), Some(s)) => Some(socket_path(d@, s@)),
            _ => None,
        },
{
    match (runtime_dir, signature) {
        (Some(d), Some(s)) => {
            let hypr = join_path(d.as_str(), "hypr");
            let dir = join_path(hypr.as_str(), s.as_str());
            Some(join_path(dir.as_str(), ".socket.sock"))
        },
        _ => None,
    }
}

/// A directory that may belong to a Hyprland instance, and which of its two
/// sockets are there.
pub struct HyprInstance {
    pub name: String,
    pub socket: bool,
    pub socket2: bool,
}

/// The first of these directories that has a socket.
pub open spec fn first_instance(v: Seq<HyprInstance>) -> Option<Seq<char>>
    decreases v.len(),
{
    if v.len() == 0 {
        None
    } else {
        match first_instance(v.drop_last()) {
            Some(n) => Some(n),
            None => if v.last().socket || v.last().socket2 {
                Some(v.last().name@)
            } else {
                None
            },
        }
    }
}

proof fn lemma_first_instance_grows(v: Seq<HyprInstance>, len: int)
    requires
        0 <= len <= v.len(),
        first_instance(v.subrange(0, len)) is Some,
    ensures
        first_instance(v) == first_instance(v.subrange(0, len)),
    decreases v.len() - len,
{
    if len == v.len() {
        assert(v.subrange(0, len) =~= v);
    } else {
        assert(v.subrange(0, len + 1).drop_last() =~= v.subrange(0, len));
        lemma_first_instance_grows(v, len + 1);
    }
}

/// Finds the signature of the Hyprland instance of a runtime directory.
pub fn find_hyprland_signature_in_runtime(v: &Vec<HyprInstance>) -> (r: Option<String>)
    ensures
        text_opt(r) == first_instance(v@),
{
    let n = v.len();
    let mut i: usize = 0;
    assert(v@.subrange(0, 0) =~= Seq::empty());
    while i < n
        invariant
            i <= n,
            n == v@.len(),
            first_instance(v@.subrange(0, i as int)) is None,
        decreases n - i,
    {
        let ghost seen = v@.subrange(0, i + 1);
        assert(seen.drop_last() =~= v@.subrange(0, i as int));
        assert(seen.last() == v@[i as int]);
        if v[i].socket || v[i].socket2 {
            proof {
                lemma_first_instance_grows(v@, i + 1);
            }
            return Some(v[i].name.clone());
        }
        i += 1;
    }
    assert(v@.subrange(0, n as int) =~= v@);
    None
}

/// The bytes of an ASCII text.
pub open spec fn ascii(s: Seq<char>) -> Seq<u8> {
    Seq::new(s.len(), |i: int| s[i] as u8)
}

fn ascii_bytes(s: &str) -> (r: Vec<u8>)
    ensures
        r@ == ascii(s@),
{
    let v = crate::text::chars(s);
    let mut r: Vec<u8> = Vec::new();
    let n = v.len();
    let mut i: usize = 0;
    while i < n
        invariant
            i <= n,
            n == v@.len(),
            v@ == s@,
            r@ == ascii(s@).subrange(0, i as int),
        decreases n - i,
    {
        r.push(v[i] as u8);
        assert(r@ =~= ascii(s@).subrange(0, i + 1));
        i += 1;
    }
    assert(ascii(s@).subrange(0, n as int) =~= ascii(s@));
    r
}

/// Whether a list of bytes begins with others.
pub open spec fn starts_as(s: Seq<u8>, part: Seq<u8>) -> bool {
    part.len() <= s.len() && s.subrange(0, part.len() as int) == part
}

fn bytes_start_with(s: &Vec<u8>, part: &Vec<u8>) -> (r: bool)
    ensures
        r == starts_as(s@, part@),
{
    let n = part.len();
    if n > s.len() {
        return false;
    }
    let mut i: usize = 0;
    while i < n
        invariant
            i <= n,
            n == part@.len(),
            n <= s@.len(),
            forall|k: int| 0 <= k < i ==> s@[k] == part@[k],
        decreases n - i,
    {
        if s[i] != part[i] {
            assert(s@.subrange(0, n as int)[i as int] != part@[i as int]);
            return false;
        }
        i += 1;
    }
    assert(s@.subrange(0, n as int) =~= part@);
    true
}

/// The value of a variable in a process environment: that of its last entry, if
/// that is text. `prefix` is the name with the equals sign.
pub open spec fn variable(all: Seq<Seq<u8>>, prefix: Seq<u8>) -> Option<Seq<char>>
    decreases all.len(),
{
    if all.len() == 0 {
        None
    } else if starts_as(all.last(), prefix) {
        utf8_text(all.last().subrange(prefix.len() as int, all.last().len() as int))
    } else {
        variable(all.drop_last(), prefix)
    }
}

/// The value of a variable in the contents of an `environ` file.
pub open spec fn environ_value(environ: Seq<u8>, name: Seq<char>) -> Option<Seq<char>> {
    variable(fields(environ, 0u8), ascii(name))
}

/// Reads a variable from the contents of an `environ` file. `name` ends with the
/// equals sign.
pub fn environ_variable(environ: &[u8], name: &str) -> (r: Option<String>)
    ensures
        text_opt(r) == environ_value(environ@, name@),
{
    let all = split_bytes(environ, 0);
    let ghost seqs = byte_texts(all@);
    let prefix = ascii_bytes(name);
    let n = all.len();
    let mut i: usize = n;
    assert(seqs.subrange(0, n as int) =~= seqs);
    while i > 0
        invariant
            i <= n,
            n == all@.len(),
            seqs == byte_texts(all@),
            seqs == fields(environ@, 0u8),
            prefix@ == ascii(name@),
            variable(seqs.subrange(0, i as int), prefix@) == environ_value(environ@, name@),
        decreases i,
    {
        let ghost seen = seqs.subrange(0, i as int);
        i -= 1;
        assert(seen.drop_last() =~= seqs.subrange(0, i as int));
        assert(seen.last() == all@[i as int]@);
        if bytes_start_with(&all[i], &prefix) {
            let entry = &all[i];
            let mut value: Vec<u8> = Vec::new();
            let m = entry.len();
            let k = prefix.len();
            let mut j: usize = k;
            while j < m
                invariant
                    k <= j <= m,
                    m == entry@.len(),
                    value@ == entry@.subrange(k as int, j as int),
                decreases m - j,
            {
                value.push(entry[j]);
                assert(value@ =~= entry@.subrange(k as int, j + 1));
                j += 1;
            }
            return from_utf8(value.as_slice());
        }
    }
    None
}

/// What the environment of a compositor says of its session.
pub struct SessionEnv {
    pub runtime_dir: Option<String>,
    pub signature: Option<String>,
    pub wayland_display: Option<String>,
}

/// Reads the session variables of a compositor.
pub fn session_env(environ: &[u8]) -> (r: SessionEnv)
    ensures
        text_opt(r.runtime_dir) == environ_value(environ@, "XDG_RUNTIME_DIR="@),
        text_opt(r.signature) == environ_value(environ@, "HYPRLAND_INSTANCE_SIGNATURE="@),
        text_opt(r.wayland_display) == environ_value(environ@, "WAYLAND_DISPLAY="@),
{
    SessionEnv {
        runtime_dir: environ_variable(environ, "XDG_RUNTIME_DIR="),
        signature: environ_variable(environ, "HYPRLAND_INSTANCE_SIGNATURE="),
        wayland_display: environ_variable(environ, "WAYLAND_DISPLAY="),
    }
}

/// Whether an environment has two variables.
pub open spec fn has_both(environ: Seq<u8>, one: Seq<char>, other: Seq<char>) -> bool {
    environ_value(environ, one) is Some && environ_value(environ, other) is Some
}

/// The first environment with two variables, unless one that cannot be read
/// stands before it.
pub open spec fn first_with_both(
    environs: Seq<Option<Vec<u8>>>,
    one: Seq<char>,
    other: Seq<char>,
) -> Option<nat>
    decreases environs.len(),
{
    if environs.len() == 0 {
        None
    } else {
        match environs[0] {
            Some(e) => if has_both(e@, one, other) {
                Some(0)
            } else {
                match first_with_both(
                    environs.subrange(1, environs.len() as int),
                    one,
                    other,
                ) {
                    Some(i) => Some(i + 1),
                    None => None,
                }
            },
            None => None,
        }
    }
}

/// Finds the first environment with two variables. The search ends at one that
/// cannot be read.
fn find_with_both(environs: &Vec<Option<Vec<u8>>>, one: &str, other: &str) -> (r: Option<usize>)
    ensures
        match r {
            Some(i) => i < environs@.len() && environs@[i as int] is Some && has_both(
                environs@[i as int]->0@,
                one@,
                other@,
            ) && first_with_both(environs@, one@, other@) == Some(i as nat),
            None => first_with_both(environs@, one@, other@) is None,
        },
{
    let n = environs.len();
    let mut i: usize = 0;
    assert(environs@.subrange(0, n as int) =~= environs@);
    while i < n
        invariant
            i <= n,
            n == environs@.len(),
            match first_with_both(environs@.subrange(i as int, n as int), one@, other@) {
                Some(k) => first_with_both(environs@, one@, other@) == Some((k + i) as nat),
                None => first_with_both(environs@, one@, other@) is None,
            },
        decreases n - i,
    {
        let ghost rest = environs@.subrange(i as int, n as int);
        assert(rest[0] == environs@[i as int]);
        assert(rest.subrange(1, rest.len() as int) =~= environs@.subrange(i + 1, n as int));
        match &environs[i] {
            Some(e) => {
                let a = environ_variable(e.as_slice(), one);
                let b = environ_variable(e.as_slice(), other);
                if a.is_some() && b.is_some() {
                    return Some(i);
                }
            },
            None => {
                return None;
            },
        }
        i += 1;
    }
    None
}

/// The session of a Hyprland process: runtime directory, signature and, where it
/// is set, display. The environments of the processes of that name are given,
/// each absent where it could not be read.
pub fn find_hyprland_env_in_proc(environs: &Vec<Option<Vec<u8>>>) -> (r: Option<SessionEnv>)
    ensures
        match r {
            Some(s) => {
                &&& first_with_both(
                    environs@,
                    "XDG_RUNTIME_DIR="@,
                    "HYPRLAND_INSTANCE_SIGNATURE="@,
                ) matches Some(i)
                &&& environs@[i as int] matches Some(e)
                &&& s.runtime_dir is Some
                &&& s.signature is Some
                &&& text_opt(s.runtime_dir) == environ_value(e@, "XDG_RUNTIME_DIR="@)
                &&& text_opt(s.signature) == environ_value(e@, "HYPRLAND_INSTANCE_SIGNATURE="@)
                &&& text_opt(s.wayland_display) == environ_value(e@, "WAYLAND_DISPLAY="@)
            },
            None => first_with_both(
                environs@,
                "XDG_RUNTIME_DIR="@,
                "HYPRLAND_INSTANCE_SIGNATURE="@,
            ) is None,
        },
{
    match find_with_both(environs, "XDG_RUNTIME_DIR=", "HYPRLAND_INSTANCE_SIGNATURE=") {
        Some(i) => match &environs[i] {
            Some(e) => Some(session_env(e.as_slice())),
            None => None,
        },
        None => None,
    }
}

/// The session of a compositor: runtime directory and display. The environments
/// of the processes of its name are given, each absent where it could not be
/// read.
pub fn find_wayland_env_in_proc(environs: &Vec<Option<Vec<u8>>>) -> (r: Option<SessionEnv>)
    ensures
        match r {
            Some(s) => {
                &&& first_with_both(environs@, "XDG_RUNTIME_DIR="@, "WAYLAND_DISPLAY="@) matches Some(
                    i,
                )
                &&& environs@[i as int] matches Some(e)
                &&& s.runtime_dir is Some
                &&& s.wayland_display is Some
                &&& text_opt(s.runtime_dir) == environ_value(e@, "XDG_RUNTIME_DIR="@)
                &&& text_opt(s.signature) == environ_value(e@, "HYPRLAND_INSTANCE_SIGNATURE="@)
                &&& text_opt(s.wayland_display) == environ_value(e@, "WAYLAND_DISPLAY="@)
            },
            None => first_with_both(
                environs@,
                "XDG_RUNTIME_DIR="@,
                "WAYLAND_DISPLAY="@,
            ) is None,
        },
{
    match find_with_both(environs, "XDG_RUNTIME_DIR=", "WAYLAND_DISPLAY=") {
        Some(i) => match &environs[i] {
            Some(e) => Some(session_env(e.as_slice())),
            None => None,
        },
        None => None,
    }
}

/// Where a Hyprland instance may be found: for each place the runtime directory
/// and the signature of the instance in it, if there is one.
pub struct HyprProbe {
    /// Whether both variables that name an instance are set.
    pub named_by_env: bool,
    /// The directory of the user behind `sudo`.
    pub sudo: Option<(String, Option<String>)>,
    /// The environment of a running process.
    pub process: Option<(String, String)>,
    /// The directories of all users.
    pub users: Vec<(String, Option<String>)>,
    /// The directory that the environment names.
    pub runtime: Option<(String, Option<String>)>,
}

/// How the Hyprland instance is named.
pub enum HyprChoice {
    /// As the environment says.
    Environment,
    /// By this runtime directory and this signature.
    Instance(String, String),
    /// There is none.
    Nothing,
}

/// The mathematical counterpart of [`HyprChoice`].
pub enum HyprChoiceView {
    Environment,
    Instance(Seq<char>, Seq<char>),
    Nothing,
}

impl View for HyprChoice {
    type V = HyprChoiceView;

    open spec fn view(&self) -> HyprChoiceView {
        match self {
            HyprChoice::Environment => HyprChoiceView::Environment,
            HyprChoice::Instance(d, s) => HyprChoiceView::Instance(d@, s@),
            HyprChoice::Nothing => HyprChoiceView::Nothing,
        }
    }
}

/// A place with an instance in it.
pub open spec fn found_at(place: Option<(String, Option<String>)>) -> Option<
    (Seq<char>, Seq<char>),
> {
    match place {
        Some(p) => match p.1 {
            Some(s) => Some((p.0@, s@)),
            None => None,
        },
        None => None,
    }
}

/// The first of these places with an instance in it.
pub open spec fn first_found(v: Seq<(String, Option<String>)>) -> Option<(Seq<char>, Seq<char>)>
    decreases v.len(),
{
    if v.len() == 0 {
        None
    } else {
        match first_found(v.drop_last()) {
            Some(p) => Some(p),
            None => found_at(Some(v.last())),
        }
    }
}

/// The instance to use: as the environment says, else that of the user behind
/// `sudo`, else that of a running process, else the first of any user, else that
/// of the directory that the environment names.
pub open spec fn chosen_instance(p: HyprProbe) -> HyprChoiceView {
    if p.named_by_env {
        HyprChoiceView::Environment
    } else if let Some(i) = found_at(p.sudo) {
        HyprChoiceView::Instance(i.0, i.1)
    } else if let Some(i) = p.process {
        HyprChoiceView::Instance(i.0@, i.1@)
    } else if let Some(i) = first_found(p.users@) {
        HyprChoiceView::Instance(i.0, i.1)
    } else if let Some(i) = found_at(p.runtime) {
        HyprChoiceView::Instance(i.0, i.1)
    } else {
        HyprChoiceView::Nothing
    }
}

proof fn lemma_first_found_grows(v: Seq<(String, Option<String>)>, len: int)
    requires
        0 <= len <= v.len(),
        first_found(v.subrange(0, len)) is Some,
    ensures
        first_found(v) == first_found(v.subrange(0, len)),
    decreases v.len() - len,
{
    if len == v.len() {
        assert(v.subrange(0, len) =~= v);
    } else {
        assert(v.subrange(0, len + 1).drop_last() =~= v.subrange(0, len));
        lemma_first_found_grows(v, len + 1);
    }
}

/// Chooses the Hyprland instance to use.
pub fn setup_hyprland_env(p: &HyprProbe) -> (r: HyprChoice)
    ensures
        r@ == chosen_instance(*p),
{
    if p.named_by_env {
        return HyprChoice::Environment;
    }
    match &p.sudo {
        Some(place) => match &place.1 {
            Some(s) => {
                return HyprChoice::Instance(place.0.clone(), s.clone());
            },
            None => {},
        },
        None => {},
    }
    match &p.process {
        Some(i) => {
            return HyprChoice::Instance(i.0.clone(), i.1.clone());
        },
        None => {},
    }
    let n = p.users.len();
    let mut i: usize = 0;
    assert(p.users@.subrange(0, 0) =~= Seq::empty());
    while i < n
        invariant
            i <= n,
            n == p.users@.len(),
            !p.named_by_env,
            found_at(p.sudo) is None,
            p.process is None,
            first_found(p.users@.subrange(0, i as int)) is None,
        decreases n - i,
    {
        let ghost seen = p.users@.subrange(0, i + 1);
        assert(seen.drop_last() =~= p.users@.subrange(0, i as int));
        assert(seen.last() == p.users@[i as int]);
        let place = &p.users[i];
        match &place.1 {
            Some(s) => {
                proof {
                    lemma_first_found_grows(p.users@, i + 1);
                }
                return HyprChoice::Instance(place.0.clone(), s.clone());
            },
            None => {},
        }
        i += 1;
    }
    assert(p.users@.subrange(0, n as int) =~= p.users@);
    match &p.runtime {
        Some(place) => match &place.1 {
            Some(s) => HyprChoice::Instance(place.0.clone(), s.clone()),
            None => HyprChoice::Nothing,
        },
        None => HyprChoice::Nothing,
    }
}

/// The runtime directory of a user.
pub open spec fn user_runtime_dir(uid: Seq<char>) -> Seq<char> {
    "/run/user/"@ + uid
}

/// Writes the runtime directory of a user.
pub fn runtime_dir(uid: &str) -> (r: String)
    ensures
        r@ == user_runtime_dir(uid@),
{
    let mut dir = "/run/user/".to_owned();
    dir.append(uid);
    dir
}

/// Writes the runtime directory of a user id.
pub fn runtime_dir_of(uid: u32) -> (r: String)
    ensures
        r@ == user_runtime_dir(decimal(uid as nat)),
{
    let id = decimal_text(uid as u64);
    runtime_dir(id.as_str())
}

/// The variables that lead to the COSMIC compositor, runtime directory and
/// display, where they are not both set: from the directory of the user behind
/// `sudo`, else from that of the compositor's user, else from the compositor's
/// environment. For each directory the display in it is given, if there is one.
pub fn setup_cosmic_env(
    both_set: bool,
    sudo: Option<(String, Option<String>)>,
    owner: Option<(String, Option<String>)>,
    process: Option<(String, String)>,
) -> (r: Option<(String, String)>)
    ensures
        match r {
            Some(v) => !both_set && Some((v.0@, v.1@)) == match found_at(sudo) {
                Some(i) => Some(i),
                None => match found_at(owner) {
                    Some(i) => Some(i),
                    None => match process {
                        Some(p) => Some((p.0@, p.1@)),
                        None => None,
                    },
                },
            },
            None => both_set || (found_at(sudo) is None && found_at(owner) is None && process
                is None),
        },
{
    if both_set {
        return None;
    }
    match sudo {
        Some((dir, Some(display))) => {
            return Some((dir, display));
        },
        _ => {},
    }
    match owner {
        Some((dir, Some(display))) => {
            return Some((dir, display));
        },
        _ => {},
    }
    process
}

/// A text that is not blank.
pub open spec fn non_blank(s: Option<Seq<char>>) -> Option<Seq<char>> {
    match s {
        Some(t) => if trimmed(t).len() > 0 {
            Some(t)
        } else {
            None
        },
        None => None,
    }
}

/// The name of the active window: its title, its class where the title is
/// blank, and a word for the desktop without any.
pub open spec fn window_name(v: JsonView) -> Seq<char> {
    match non_blank(string_in(v.get("title"@))) {
        Some(t) => trimmed(t),
        None => match string_in(v.get("class"@)) {
            Some(c) => trimmed(c),
            None => "Desktop"@,
        },
    }
}

/// The name of the active workspace, or its number where it has none.
pub open spec fn workspace_name(v: JsonView) -> Seq<char> {
    match string_in(v.get("name"@)) {
        Some(n) => if n.len() > 0 {
            n
        } else {
            workspace_id(v)
        },
        None => workspace_id(v),
    }
}

/// The number of the active workspace, as it is written in the reply.
pub open spec fn workspace_id(v: JsonView) -> Seq<char> {
    match v.get("id"@) {
        Some(id) => id.text,
        None => Seq::empty(),
    }
}

/// A reply that was received and is valid JSON.
pub open spec fn reply(bytes: Option<Vec<u8>>) -> Option<JsonView> {
    match bytes {
        Some(b) => crate::json::parsed_json(b@),
        None => None,
    }
}

fn read_reply(bytes: &Option<Vec<u8>>) -> (r: Option<Json>)
    ensures
        match r {
            Some(j) => reply(*bytes) == Some(j@),
            None => reply(*bytes) is None,
        },
{
    match bytes {
        Some(b) => parse_json(b.as_slice()),
        None => None,
    }
}

/// The text in a member of a reply.
fn member_text(v: &Json, key: &str) -> (r: Option<String>)
    ensures
        text_opt(r) == string_in(v@.get(key@)),
{
    match v.get(key) {
        Some(m) => match m.as_str() {
            Some(t) => Some(t.to_owned()),
            None => None,
        },
        None => None,
    }
}

/// Names the window of a reply.
pub fn active_window_name(v: &Json) -> (r: String)
    ensures
        r@ == window_name(v@),
{
    match member_text(v, "title") {
        Some(t) => {
            let title = trim(t.as_str());
            if !title.as_str().is_empty() {
                return title;
            }
        },
        None => {},
    }
    match member_text(v, "class") {
        Some(c) => trim(c.as_str()),
        None => "Desktop".to_owned(),
    }
}

/// Names the workspace of a reply.
pub fn active_workspace_name(v: &Json) -> (r: String)
    ensures
        r@ == workspace_name(v@),
{
    match member_text(v, "name") {
        Some(n) => {
            if !n.as_str().is_empty() {
                return n;
            }
        },
        None => {},
    }
    match v.get("id") {
        Some(id) => id.text.clone(),
        None => String::new(),
    }
}

/// What Hyprland says of the active window and workspace, and whether it
/// answered both questions. A reply is absent where the socket failed.
pub fn get_hyprland_info(window: Option<Vec<u8>>, workspace: Option<Vec<u8>>) -> (r: (
    String,
    String,
    bool,
))
    ensures
        (r.0@, r.1@, r.2) == match reply(window) {
            None => (Seq::<char>::empty(), Seq::<char>::empty(), false),
            Some(w) => match reply(workspace) {
                None => (window_name(w), Seq::<char>::empty(), false),
                Some(s) => (window_name(w), workspace_name(s), true),
            },
        },
{
    match read_reply(&window) {
        None => (String::new(), String::new(), false),
        Some(w) => match read_reply(&workspace) {
            None => (active_window_name(&w), String::new(), false),
            Some(s) => (active_window_name(&w), active_workspace_name(&s), true),
        },
    }
}

/// A workspace of the COSMIC desktop: its state as it is printed, its name, its
/// id where it has one, and the id of its handle.
pub struct CosmicWorkspace {
    pub state: String,
    pub name: String,
    pub id: Option<String>,
    pub handle: String,
}

/// A window of the COSMIC desktop: its state as it is printed, its title, its
/// application, and the positions of the workspaces that it is on.
pub struct CosmicToplevel {
    pub state: String,
    pub title: String,
    pub app_id: String,
    pub workspaces: Vec<usize>,
}

/// The position of the first workspace that is active.
pub open spec fn active_workspace_at(v: Seq<CosmicWorkspace>) -> Option<nat>
    decreases v.len(),
{
    if v.len() == 0 {
        None
    } else {
        match active_workspace_at(v.drop_last()) {
            Some(i) => Some(i),
            None => if occurs_in("Active"@, v.last().state@) {
                Some((v.len() - 1) as nat)
            } else {
                None
            },
        }
    }
}

/// The position of the first window that is activated.
pub open spec fn activated_at(v: Seq<CosmicToplevel>) -> Option<nat>
    decreases v.len(),
{
    if v.len() == 0 {
        None
    } else {
        match activated_at(v.drop_last()) {
            Some(i) => Some(i),
            None => if occurs_in("Activated"@, v.last().state@) {
                Some((v.len() - 1) as nat)
            } else {
                None
            },
        }
    }
}

/// The position of the first window that is on a workspace.
pub open spec fn placed_at(v: Seq<CosmicToplevel>, workspace: usize) -> Option<nat>
    decreases v.len(),
{
    if v.len() == 0 {
        None
    } else {
        match placed_at(v.drop_last(), workspace) {
            Some(i) => Some(i),
            None => if v.last().workspaces@.contains(workspace) {
                Some((v.len() - 1) as nat)
            } else {
                None
            },
        }
    }
}

/// The name of the active workspace, its id where it has none, and the id of its
/// handle where it has neither.
pub open spec fn cosmic_workspace_name(v: Seq<CosmicWorkspace>) -> Seq<char> {
    match active_workspace_at(v) {
        Some(i) => {
            let w = v[i as int];
            if w.name@.len() > 0 {
                w.name@
            } else {
                match w.id {
                    Some(id) => id@,
                    None => w.handle@,
                }
            }
        },
        None => Seq::empty(),
    }
}

/// The position of the window to name: the first that is activated, else the
/// first on the active workspace.
pub open spec fn named_window_at(v: Seq<CosmicToplevel>, workspaces: Seq<CosmicWorkspace>) -> Option<
    nat,
> {
    match activated_at(v) {
        Some(i) => Some(i),
        None => match active_workspace_at(workspaces) {
            Some(w) => if w <= usize::MAX {
                placed_at(v, w as usize)
            } else {
                None
            },
            None => None,
        },
    }
}

/// The name of a window: its title, its application where that is blank, and a
/// word for the desktop where both are.
pub open spec fn cosmic_window_name(t: CosmicToplevel) -> Seq<char> {
    if trimmed(t.title@).len() > 0 {
        trimmed(t.title@)
    } else if trimmed(t.app_id@).len() > 0 {
        trimmed(t.app_id@)
    } else {
        "Desktop"@
    }
}

fn find_active_workspace(v: &Vec<CosmicWorkspace>) -> (r: Option<usize>)
    ensures
        match r {
            Some(i) => i < v@.len() && active_workspace_at(v@) == Some(i as nat),
            None => active_workspace_at(v@) is None,
        },
{
    let n = v.len();
    let mut i: usize = 0;
    let mut found: Option<usize> = None;
    assert(v@.subrange(0, 0) =~= Seq::empty());
    while i < n
        invariant
            i <= n,
            n == v@.len(),
            match found {
                Some(k) => k < i && active_workspace_at(v@.subrange(0, i as int)) == Some(k as nat),
                None => active_workspace_at(v@.subrange(0, i as int)) is None,
            },
        decreases n - i,
    {
        let ghost seen = v@.subrange(0, i + 1);
        assert(seen.drop_last() =~= v@.subrange(0, i as int));
        assert(seen.last() == v@[i as int]);
        if found.is_none() && contains(v[i].state.as_str(), "Active") {
            found = Some(i);
        }
        i += 1;
    }
    assert(v@.subrange(0, n as int) =~= v@);
    found
}

fn find_activated(v: &Vec<CosmicToplevel>) -> (r: Option<usize>)
    ensures
        match r {
            Some(i) => i < v@.len() && activated_at(v@) == Some(i as nat),
            None => activated_at(v@) is None,
        },
{
    let n = v.len();
    let mut i: usize = 0;
    let mut found: Option<usize> = None;
    assert(v@.subrange(0, 0) =~= Seq::empty());
    while i < n
        invariant
            i <= n,
            n == v@.len(),
            match found {
                Some(k) => k < i && activated_at(v@.subrange(0, i as int)) == Some(k as nat),
                None => activated_at(v@.subrange(0, i as int)) is None,
            },
        decreases n - i,
    {
        let ghost seen = v@.subrange(0, i + 1);
        assert(seen.drop_last() =~= v@.subrange(0, i as int));
        assert(seen.last() == v@[i as int]);
        if found.is_none() && contains(v[i].state.as_str(), "Activated") {
            found = Some(i);
        }
        i += 1;
    }
    assert(v@.subrange(0, n as int) =~= v@);
    found
}

fn is_among(v: &Vec<usize>, x: usize) -> (r: bool)
    ensures
        r == v@.contains(x),
{
    let n = v.len();
    let mut i: usize = 0;
    while i < n
        invariant
            i <= n,
            n == v@.len(),
            forall|k: int| 0 <= k < i ==> v@[k] != x,
        decreases n - i,
    {
        if v[i] == x {
            assert(v@[i as int] == x);
            return true;
        }
        i += 1;
    }
    false
}

fn find_placed(v: &Vec<CosmicToplevel>, workspace: usize) -> (r: Option<usize>)
    ensures
        match r {
            Some(i) => i < v@.len() && placed_at(v@, workspace) == Some(i as nat),
            None => placed_at(v@, workspace) is None,
        },
{
    let n = v.len();
    let mut i: usize = 0;
    let mut found: Option<usize> = None;
    assert(v@.subrange(0, 0) =~= Seq::empty());
    while i < n
        invariant
            i <= n,
            n == v@.len(),
            match found {
                Some(k) => k < i && placed_at(v@.subrange(0, i as int), workspace) == Some(
                    k as nat,
                ),
                None => placed_at(v@.subrange(0, i as int), workspace) is None,
            },
        decreases n - i,
    {
        let ghost seen = v@.subrange(0, i + 1);
        assert(seen.drop_last() =~= v@.subrange(0, i as int));
        assert(seen.last() == v@[i as int]);
        if found.is_none() && is_among(&v[i].workspaces, workspace) {
            found = Some(i);
        }
        i += 1;
    }
    assert(v@.subrange(0, n as int) =~= v@);
    found
}

/// What the COSMIC desktop says of the active window and workspace.
pub fn cosmic_info(workspaces: &Vec<CosmicWorkspace>, toplevels: &Vec<CosmicToplevel>) -> (r: (
    String,
    String,
))
    ensures
        r.0@ == match named_window_at(toplevels@, workspaces@) {
            Some(i) => cosmic_window_name(toplevels@[i as int]),
            None => "Desktop"@,
        },
        r.1@ == cosmic_workspace_name(workspaces@),
{
    let active = find_active_workspace(workspaces);
    let workspace = match active {
        Some(i) => {
            let w = &workspaces[i];
            if w.name.as_str().is_empty() {
                match &w.id {
                    Some(id) => id.clone(),
                    None => w.handle.clone(),
                }
            } else {
                w.name.clone()
            }
        },
        None => String::new(),
    };
    let at = match find_activated(toplevels) {
        Some(i) => Some(i),
        None => match active {
            Some(w) => find_placed(toplevels, w),
            None => None,
        },
    };
    let window = match at {
        Some(i) => {
            let t = &toplevels[i];
            let title = trim(t.title.as_str());
            let app = trim(t.app_id.as_str());
            if !title.as_str().is_empty() {
                title
            } else if !app.as_str().is_empty() {
                app
            } else {
                "Desktop".to_owned()
            }
        },
        None => "Desktop".to_owned(),
    };
    (window, workspace)
}

/// What the watch on the desktop is to do next.
pub enum DesktopStep {
    /// Ask Hyprland.
    AskHyprland,
    /// Take over this window and workspace, tell that the desktop was probed,
    /// wait for [`DESKTOP_INFO_REFRESH`] and ask Hyprland again.
    Publish(String, String),
    /// Forget what the desktop said, then follow the COSMIC compositor until
    /// that fails.
    FollowCosmic,
}

/// The watch on the desktop: which compositor is asked first, and the last
/// failure that was reported.
pub struct DesktopWatch {
    pub prefer_cosmic: bool,
    pub last_error: Option<String>,
}

impl DesktopWatch {
    /// Starts to watch.
    pub fn new(prefer_cosmic: bool) -> (r: DesktopWatch)
        ensures
            r.prefer_cosmic == prefer_cosmic,
            r.last_error is None,
    {
        DesktopWatch { prefer_cosmic, last_error: None }
    }

    /// What to do at the start, and whenever following COSMIC has failed.
    pub fn begin(&self) -> (r: DesktopStep)
        ensures
            self.prefer_cosmic ==> r is FollowCosmic,
            !self.prefer_cosmic ==> r is AskHyprland,
    {
        if self.prefer_cosmic {
            DesktopStep::FollowCosmic
        } else {
            DesktopStep::AskHyprland
        }
    }

    /// What to do with Hyprland's answer: without one, COSMIC is tried.
    pub fn hyprland_answered(&self, window: String, workspace: String, available: bool) -> (r:
        DesktopStep)
        ensures
            match r {
                DesktopStep::Publish(w, s) => available && w == window && s == workspace,
                DesktopStep::FollowCosmic => !available,
                DesktopStep::AskHyprland => false,
            },
    {
        if available {
            DesktopStep::Publish(window, workspace)
        } else {
            DesktopStep::FollowCosmic
        }
    }

    /// Notes that following COSMIC has failed. Tells whether the failure is to be
    /// reported: one that repeats the last is not.
    pub fn cosmic_failed(&mut self, error: String) -> (r: bool)
        ensures
            final(self).prefer_cosmic == old(self).prefer_cosmic,
            r == (text_opt(old(self).last_error) != Some(error@)),
            text_opt(final(self).last_error) == Some(error@),
    {
        let repeated = match &self.last_error {
            Some(e) => same(e.as_str(), error.as_str()),
            None => false,
        };
        if repeated {
            return false;
        }
        self.last_error = Some(error);
        true
    }
}

/// Keeps what is known of the system, and when its statistics were last read.
pub struct SystemInfoManager {
    pub info: SystemInfo,
    pub last_system_refresh: Option<u64>,
}

impl SystemInfoManager {
    /// Nothing known yet, and the statistics due to be read.
    pub fn new(now: u64) -> (r: SystemInfoManager)
        ensures
            r.info@ == (SystemView {
                cpu_usage: 0,
                memory_usage: 0,
                memory_total: 0,
                active_window: Seq::empty(),
                active_workspace: Seq::empty(),
                now_playing: Seq::empty(),
                show_now_playing: true,
                desktop_info_available: false,
                last_update: now,
            }),
            r.last_system_refresh is None,
    {
        SystemInfoManager { info: SystemInfo::new(now), last_system_refresh: None }
    }

    /// Whether the statistics are due to be read.
    pub fn stats_due(&self, now: u64) -> (r: bool)
        ensures
            r == match self.last_system_refresh {
                Some(t) => now - t >= SYSTEM_STATS_REFRESH,
                None => true,
            },
            self.last_system_refresh matches Some(t) ==> (r <==> now - t >= 2_000_000_000),
    {
        match self.last_system_refresh {
            Some(t) => now.saturating_sub(t) >= SYSTEM_STATS_REFRESH,
            None => true,
        }
    }

    /// Takes over new statistics.
    pub fn store_stats(&mut self, cpu_usage: u64, memory_usage: u64, memory_total: u64, now: u64)
        ensures
            final(self).info@ == (SystemView {
                cpu_usage,
                memory_usage,
                memory_total,
                last_update: now,
                ..old(self).info@
            }),
            final(self).last_system_refresh == Some(now),
    {
        self.info.update_system_stats(cpu_usage, memory_usage, memory_total, now);
        self.last_system_refresh = Some(now);
    }

    /// The processor usage.
    pub fn get_cpu_usage(&self) -> (r: u64)
        ensures
            r == self.info@.cpu_usage,
    {
        self.info.cpu_usage
    }

    /// The memory in use and the memory that there is, in bytes.
    pub fn get_memory_usage(&self) -> (r: (u64, u64))
        ensures
            r == (self.info@.memory_usage, self.info@.memory_total),
    {
        (self.info.memory_usage, self.info.memory_total)
    }

    /// What the title bar shows, and whether that is music.
    pub fn get_titlebar_text(&self) -> (r: (String, bool))
        ensures
            r.0@ == self.info@.titlebar(),
            r.1 == self.info@.shows_music(),
    {
        let music = self.info.show_now_playing && !self.info.now_playing.as_str().is_empty();
        (self.info.titlebar_text(), music)
    }

    /// Switches the title bar between the music and the window, if there is
    /// music. Tells whether it did.
    pub fn toggle_titlebar_text(&mut self) -> (r: bool)
        ensures
            final(self).info@ == old(self).info@.toggled(),
            final(self).last_system_refresh == old(self).last_system_refresh,
            r == (old(self).info@.now_playing.len() > 0),
    {
        self.info.toggle_titlebar_text()
    }

    /// The name of the active workspace.
    pub fn get_active_workspace(&self) -> (r: String)
        ensures
            r@ == self.info@.active_workspace,
    {
        self.info.active_workspace.clone()
    }

    /// Whether the desktop answers.
    pub fn desktop_info_available(&self) -> (r: bool)
        ensures
            r == self.info@.desktop_info_available,
    {
        self.info.desktop_info_available
    }
}

/// The text of a member of a reply.
pub open spec fn told(v: JsonView, key: Seq<char>) -> Option<Seq<char>> {
    match v.get(key) {
        Some(j) => j.string(),
        None => None,
    }
}

/// A window is named by its title unless that is blank, else by its class, and by a
/// word for the desktop where it has neither; no name has white space around it.
pub proof fn window_is_named_by_its_title(v: JsonView)
    ensures
        told(v, "title"@) matches Some(t) ==> trimmed(t).len() > 0 ==> window_name(v) == trimmed(t),
        told(v, "title"@) is None || trimmed(told(v, "title"@)->0).len() == 0 ==> match told(
            v,
            "class"@,
        ) {
            Some(c) => window_name(v) == trimmed(c),
            None => window_name(v) == "Desktop"@,
        },
{
}

/// A workspace is named by its name unless that is empty, and else by its number.
pub proof fn workspace_is_named_by_its_name(v: JsonView)
    ensures
        told(v, "name"@) matches Some(n) ==> n.len() > 0 ==> workspace_name(v) == n,
        told(v, "name"@) is None || (told(v, "name"@)->0).len() == 0 ==> match v.get("id"@) {
            Some(id) => workspace_name(v) == id.text,
            None => workspace_name(v).len() == 0,
        },
{
}

/// The active workspace is the first one whose state says so.
pub proof fn active_workspace_is_first(v: Seq<CosmicWorkspace>)
    ensures
        match active_workspace_at(v) {
            Some(i) => i < v.len() && occurs_in("Active"@, v[i as int].state@) && forall|j: int|
                0 <= j < i ==> !occurs_in("Active"@, (#[trigger] v[j]).state@),
            None => forall|j: int|
                0 <= j < v.len() ==> !occurs_in("Active"@, (#[trigger] v[j]).state@),
        },
    decreases v.len(),
{
    if v.len() > 0 {
        let front = v.drop_last();
        active_workspace_is_first(front);
        let bound = match active_workspace_at(front) {
            Some(i) => i as int,
            None => front.len() as int,
        };
        assert forall|j: int| 0 <= j < bound implies !occurs_in("Active"@, (#[trigger] v[j]).state@) by {
            assert(front[j] == v[j]);
        }
    }
}

/// The activated window is the first one whose state says so.
pub proof fn activated_window_is_first(v: Seq<CosmicToplevel>)
    ensures
        match activated_at(v) {
            Some(i) => i < v.len() && occurs_in("Activated"@, v[i as int].state@) && forall|j: int|
                0 <= j < i ==> !occurs_in("Activated"@, (#[trigger] v[j]).state@),
            None => forall|j: int|
                0 <= j < v.len() ==> !occurs_in("Activated"@, (#[trigger] v[j]).state@),
        },
    decreases v.len(),
{
    if v.len() > 0 {
        let front = v.drop_last();
        activated_window_is_first(front);
        let bound = match activated_at(front) {
            Some(i) => i as int,
            None => front.len() as int,
        };
        assert forall|j: int| 0 <= j < bound implies !occurs_in(
            "Activated"@,
            (#[trigger] v[j]).state@,
        ) by {
            assert(front[j] == v[j]);
        }
    }
}

/// The window that is found on a workspace is the first one that is on it.
pub proof fn placed_window_is_first(v: Seq<CosmicToplevel>, workspace: usize)
    ensures
        match placed_at(v, workspace) {
            Some(i) => i < v.len() && v[i as int].workspaces@.contains(workspace) && forall|j: int|
                0 <= j < i ==> !(#[trigger] v[j]).workspaces@.contains(workspace),
            None => forall|j: int|
                0 <= j < v.len() ==> !(#[trigger] v[j]).workspaces@.contains(workspace),
        },
    decreases v.len(),
{
    if v.len() > 0 {
        let front = v.drop_last();
        placed_window_is_first(front, workspace);
        let bound = match placed_at(front, workspace) {
            Some(i) => i as int,
            None => front.len() as int,
        };
        assert forall|j: int| 0 <= j < bound implies !(#[trigger] v[j]).workspaces@.contains(
            workspace,
        ) by {
            assert(front[j] == v[j]);
        }
    }
}

/// A window that is activated is the one to be named, wherever it is; without one,
/// the window that is named is on the active workspace, and without that none is.
pub proof fn activated_window_is_named(v: Seq<CosmicToplevel>, workspaces: Seq<CosmicWorkspace>)
    ensures
        match named_window_at(v, workspaces) {
            Some(i) => {
                &&& i < v.len()
                &&& occurs_in("Activated"@, v[i as int].state@) || (
                active_workspace_at(workspaces) matches Some(w) && w <= usize::MAX
                    && v[i as int].workspaces@.contains(w as usize) && forall|j: int|
                    0 <= j < v.len() ==> !occurs_in("Activated"@, (#[trigger] v[j]).state@))
            },
            None => forall|j: int|
                0 <= j < v.len() ==> !occurs_in("Activated"@, (#[trigger] v[j]).state@),
        },
{
    activated_window_is_first(v);
    match active_workspace_at(workspaces) {
        Some(w) => {
            if w <= usize::MAX {
                placed_window_is_first(v, w as usize);
            }
        },
        None => {},
    }
}

/// A window of the COSMIC desktop is named by its title, by its application where
/// the title is blank, and by a word for the desktop where both are; a workspace by
/// its name, by its id where it has none, and by the id of its handle where it has
/// neither.
pub proof fn cosmic_names_have_substitutes(t: CosmicToplevel, v: Seq<CosmicWorkspace>)
    ensures
        trimmed(t.title@).len() > 0 ==> cosmic_window_name(t) == trimmed(t.title@),
        trimmed(t.title@).len() == 0 && trimmed(t.app_id@).len() > 0 ==> cosmic_window_name(t)
            == trimmed(t.app_id@),
        trimmed(t.title@).len() == 0 && trimmed(t.app_id@).len() == 0 ==> cosmic_window_name(t)
            == "Desktop"@,
        match active_workspace_at(v) {
            Some(i) => {
                let w = v[i as int];
                &&& w.name@.len() > 0 ==> cosmic_workspace_name(v) == w.name@
                &&& w.name@.len() == 0 && w.id is Some ==> cosmic_workspace_name(v) == (w.id->0)@
                &&& w.name@.len() == 0 && w.id is None ==> cosmic_workspace_name(v) == w.handle@
            },
            None => cosmic_workspace_name(v).len() == 0,
        },
{
}

/// The process that is found is the first one of its name.
pub proof fn found_process_is_first(procs: Seq<ProcEntry>, name: Seq<char>)
    ensures
        match first_process(procs, name) {
            Some(i) => i < procs.len() && is_process(procs[i as int], name) && forall|j: int|
                0 <= j < i ==> !is_process(#[trigger] procs[j], name),
            None => forall|j: int| 0 <= j < procs.len() ==> !is_process(#[trigger] procs[j], name),
        },
        first_process(procs, name) matches Some(i) ==> user_of(procs, name) == procs[i as int].uid,
        first_process(procs, name) is None ==> user_of(procs, name) is None,
    decreases procs.len(),
{
    if procs.len() > 0 {
        let front = procs.drop_last();
        found_process_is_first(front, name);
        let bound = match first_process(front, name) {
            Some(i) => i as int,
            None => front.len() as int,
        };
        assert forall|j: int| 0 <= j < bound implies !is_process(#[trigger] procs[j], name) by {
            assert(front[j] == procs[j]);
        }
    }
}

/// The user of an id is the one in the first line of the password file with that
/// id: what stands before its first colon, where the third of its fields is that
/// number.
pub proof fn user_is_found_by_id(ls: Seq<Seq<char>>, uid: u32)
    ensures
        match user_in(ls, uid) {
            Some(name) => exists|i: int|
                {
                    &&& 0 <= i < ls.len()
                    &&& fields(#[trigger] ls[i], ':').len() >= 3
                    &&& name == fields(ls[i], ':')[0]
                    &&& number_up_to(fields(ls[i], ':')[2], u32::MAX as nat) == Some(uid as nat)
                },
            None => forall|i: int|
                0 <= i < ls.len() ==> fields(#[trigger] ls[i], ':').len() < 3 || number_up_to(
                    fields(ls[i], ':')[2],
                    u32::MAX as nat,
                ) != Some(uid as nat),
        },
    decreases ls.len(),
{
    if ls.len() > 0 {
        let front = ls.drop_last();
        user_is_found_by_id(front, uid);
        match user_in(front, uid) {
            Some(name) => {
                let i = choose|i: int|
                    {
                        &&& 0 <= i < front.len()
                        &&& fields(#[trigger] front[i], ':').len() >= 3
                        &&& name == fields(front[i], ':')[0]
                        &&& number_up_to(fields(front[i], ':')[2], u32::MAX as nat) == Some(
                            uid as nat,
                        )
                    };
                assert(ls[i] == front[i]);
            },
            None => {
                assert forall|i: int| 0 <= i < ls.len() - 1 implies fields(#[trigger] ls[i], ':').len()
                    < 3 || number_up_to(fields(ls[i], ':')[2], u32::MAX as nat) != Some(
                    uid as nat,
                ) by {
                    assert(ls[i] == front[i]);
                }
                assert(ls[ls.len() - 1] == ls.last());
            },
        }
    }
}

/// The display that is found is a Wayland socket, and there is none only where no
/// file is one. A lock file is none.
pub proof fn found_display_is_a_socket(names: Seq<Seq<char>>)
    ensures
        match first_socket(names) {
            Some(n) => names.contains(n) && begins_with(n, "wayland-"@) && !finishes_with(
                n,
                ".lock"@,
            ),
            None => forall|j: int|
                0 <= j < names.len() ==> !begins_with(#[trigger] names[j], "wayland-"@)
                    || finishes_with(names[j], ".lock"@),
        },
    decreases names.len(),
{
    if names.len() > 0 {
        let front = names.drop_last();
        found_display_is_a_socket(front);
        match first_socket(front) {
            Some(n) => {
                let i = choose|i: int| 0 <= i < front.len() && front[i] == n;
                assert(names[i] == n);
            },
            None => {
                assert(names[names.len() - 1] == names.last());
                assert forall|j: int| 0 <= j < names.len() - 1 implies !begins_with(
                    #[trigger] names[j],
                    "wayland-"@,
                ) || finishes_with(names[j], ".lock"@) by {
                    assert(front[j] == names[j]);
                }
            },
        }
    }
}

/// A variable has the value of the last entry that sets it, if that is text.
pub proof fn last_entry_sets_a_variable(all: Seq<Seq<u8>>, prefix: Seq<u8>, entry: Seq<u8>)
    ensures
        variable(Seq::empty(), prefix) is None,
        starts_as(entry, prefix) ==> variable(all.push(entry), prefix) == utf8_text(
            entry.subrange(prefix.len() as int, entry.len() as int),
        ),
        !starts_as(entry, prefix) ==> variable(all.push(entry), prefix) == variable(all, prefix),
{
    let more = all.push(entry);
    assert(more.drop_last() =~= all);
}

/// The environment decides where it names an instance; then the directory of the
/// user behind `sudo`, a running process, the directories of all users and the one
/// that the environment names are asked, in this order.
pub proof fn instance_is_looked_for_in_order(p: HyprProbe)
    ensures
        ({
            let c = chosen_instance(p);
            let sudo = p.sudo is Some && (p.sudo->0).1 is Some;
            let users = first_found(p.users@);
            let runtime = p.runtime is Some && (p.runtime->0).1 is Some;
            &&& p.named_by_env <==> c is Environment
            &&& !p.named_by_env && sudo ==> c == HyprChoiceView::Instance(
                (p.sudo->0).0@,
                ((p.sudo->0).1->0)@,
            )
            &&& !p.named_by_env && !sudo && p.process is Some ==> c == HyprChoiceView::Instance(
                (p.process->0).0@,
                (p.process->0).1@,
            )
            &&& !p.named_by_env && !sudo && p.process is None && users is Some ==> c
                == HyprChoiceView::Instance((users->0).0, (users->0).1)
            &&& !p.named_by_env && !sudo && p.process is None && users is None && runtime ==> c
                == HyprChoiceView::Instance((p.runtime->0).0@, ((p.runtime->0).1->0)@)
            &&& !p.named_by_env && !sudo && p.process is None && users is None && !runtime <==> c
                is Nothing
        }),
{
}

/// Music that ends gives way to the window's title; music that goes on stays shown
/// or hidden as it was. Nothing else changes by it.
pub proof fn music_gives_way_to_the_title(s: SystemView, music: Seq<char>, now: u64)
    ensures
        s.playing(Seq::empty(), now).titlebar() == s.active_window,
        s.now_playing.len() > 0 ==> s.playing(music, now).show_now_playing == s.show_now_playing,
        s.playing(music, now).now_playing == music,
        s.playing(music, now).active_window == s.active_window,
        s.playing(music, now).active_workspace == s.active_workspace,
        s.playing(music, now).cpu_usage == s.cpu_usage,
        s.playing(music, now).memory_usage == s.memory_usage,
        s.playing(music, now).desktop_info_available == s.desktop_info_available,
{
}

/// The place that is found among several is the first one with an instance in it.
pub proof fn found_place_is_first(v: Seq<(String, Option<String>)>)
    ensures
        match first_found(v) {
            Some(p) => exists|i: int|
                {
                    &&& 0 <= i < v.len()
                    &&& (#[trigger] v[i]).1 is Some
                    &&& p == (v[i].0@, (v[i].1->0)@)
                    &&& forall|j: int| 0 <= j < i ==> (#[trigger] v[j]).1 is None
                },
            None => forall|j: int| 0 <= j < v.len() ==> (#[trigger] v[j]).1 is None,
        },
    decreases v.len(),
{
    if v.len() > 0 {
        let front = v.drop_last();
        found_place_is_first(front);
        match first_found(front) {
            Some(p) => {
                let i = choose|i: int|
                    {
                        &&& 0 <= i < front.len()
                        &&& (#[trigger] front[i]).1 is Some
                        &&& p == (front[i].0@, (front[i].1->0)@)
                        &&& forall|j: int| 0 <= j < i ==> (#[trigger] front[j]).1 is None
                    };
                assert(v[i] == front[i]);
                assert forall|j: int| 0 <= j < i implies (#[trigger] v[j]).1 is None by {
                    assert(front[j] == v[j]);
                }
            },
            None => {
                assert forall|j: int| 0 <= j < v.len() - 1 implies (#[trigger] v[j]).1 is None by {
                    assert(front[j] == v[j]);
                }
                assert(v[v.len() - 1] == v.last());
            },
        }
    }
}

/// The instance that is found in a directory is the first one with either of its
/// sockets.
pub proof fn found_instance_has_a_socket(v: Seq<HyprInstance>)
    ensures
        match first_instance(v) {
            Some(n) => exists|i: int|
                {
                    &&& 0 <= i < v.len()
                    &&& (#[trigger] v[i]).name@ == n
                    &&& v[i].socket || v[i].socket2
                    &&& forall|j: int| 0 <= j < i ==> !(#[trigger] v[j]).socket && !v[j].socket2
                },
            None => forall|j: int| 0 <= j < v.len() ==> !(#[trigger] v[j]).socket && !v[j].socket2,
        },
    decreases v.len(),
{
    if v.len() > 0 {
        let front = v.drop_last();
        found_instance_has_a_socket(front);
        match first_instance(front) {
            Some(n) => {
                let i = choose|i: int|
                    {
                        &&& 0 <= i < front.len()
                        &&& (#[trigger] front[i]).name@ == n
                        &&& front[i].socket || front[i].socket2
                        &&& forall|j: int|
                            0 <= j < i ==> !(#[trigger] front[j]).socket && !front[j].socket2
                    };
                assert(v[i] == front[i]);
                assert forall|j: int| 0 <= j < i implies !(#[trigger] v[j]).socket && !v[j].socket2 by {
                    assert(front[j] == v[j]);
                }
            },
            None => {
                assert forall|j: int| 0 <= j < v.len() - 1 implies !(#[trigger] v[j]).socket
                    && !v[j].socket2 by {
                    assert(front[j] == v[j]);
                }
                assert(v[v.len() - 1] == v.last());
            },
        }
    }
}

/// The socket of an instance lies in the directory of its signature, below the one
/// of all instances in the runtime directory.
pub proof fn socket_lies_below_the_runtime_directory(runtime_dir: Seq<char>, signature: Seq<char>)
    requires
        runtime_dir.len() > 0,
        runtime_dir.last() != '/',
        signature.len() > 0,
        signature[0] != '/',
        signature.last() != '/',
    ensures
        socket_path(runtime_dir, signature) == runtime_dir + seq!['/'] + "hypr"@ + seq!['/']
            + signature + seq!['/'] + ".socket.sock"@,
{
    reveal_strlit("hypr");
    reveal_strlit(".socket.sock");
    assert("hypr"@[0] == 'h' && "hypr"@[3] == 'r' && "hypr"@.len() == 4);
    assert(".socket.sock"@[0] == '.');
    crate::text::path_has_one_slash(runtime_dir, "hypr"@);
    let dir = path_joined(runtime_dir, "hypr"@);
    assert(dir.last() == 'r');
    crate::text::path_has_one_slash(dir, signature);
    let inner = path_joined(dir, signature);
    assert(inner.last() == signature.last());
    crate::text::path_has_one_slash(inner, ".socket.sock"@);
}

/// A player plays exactly if its status says so, white space aside; one that could
/// not be asked does not.
pub proof fn player_says_that_it_plays(status: Vec<u8>)
    ensures
        says_playing(Some(status)) <==> (utf8_text(status@) is Some && trimmed(
            utf8_text(status@)->0,
        ) == "Playing"@),
        !says_playing(None),
{
    reveal_strlit("Playing");
    assert("Playing"@.len() == 7);
    assert(trimmed(Seq::<char>::empty()).len() == 0);
}

} // verus!
