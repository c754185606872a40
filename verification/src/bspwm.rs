//! Model of the tiling window manager's monitor/desktop layout, and the
//! parser for its line-oriented report protocol.
//!
//! A report is a compact character stream: `M`/`m` opens a monitor section
//! (active/inactive) whose name runs up to the next `:`; `O`/`o`, `F`/`f`,
//! `U`/`u` open a desktop entry (occupied, free, urgent; uppercase means
//! focused) named likewise; `L`, `T` and `G` open segments that are skipped
//! up to the next `:` or newline; anything else is skipped one character at
//! a time.  Reports are applied as upserts: monitors match by name, desktops
//! match by name within their monitor, and unseen names are appended in
//! report order.  The socket I/O that feeds reports in lives outside this
//! crate.

use vstd::prelude::*;

use crate::util::dec_str;
use crate::util::i32_to_string;

verus! {

/// The summarized state of one desktop.  The focused desktop is reported
/// `FOCUSED` whatever its occupancy.
#[derive(Debug, Clone, Copy, PartialEq, Eq, Structural)]
pub enum DesktopEnum {
    FREE,
    FOCUSED,
    OCCUPIED,
    URGENT,
}

/// The desktop state a report tag character denotes.
pub open spec fn spec_desktop_state(c: char) -> DesktopEnum {
    if c == 'o' {
        DesktopEnum::OCCUPIED
    } else if c == 'u' {
        DesktopEnum::URGENT
    } else if c == 'F' || c == 'U' || c == 'O' {
        DesktopEnum::FOCUSED
    } else {
        DesktopEnum::FREE
    }
}

impl DesktopEnum {
    /// The desktop state a report tag character denotes; every character
    /// maps somewhere, unrecognized ones to `FREE`.
    pub fn from_char(c: char) -> (r: Option<DesktopEnum>)
        ensures
            r == Some(spec_desktop_state(c)),
    {
        if c == 'o' {
            Some(DesktopEnum::OCCUPIED)
        } else if c == 'u' {
            Some(DesktopEnum::URGENT)
        } else if c == 'F' || c == 'U' || c == 'O' {
            Some(DesktopEnum::FOCUSED)
        } else {
            Some(DesktopEnum::FREE)
        }
    }
}

/// One desktop of a monitor.
#[derive(Debug)]
pub struct Desktop {
    pub state: DesktopEnum,
    pub name: String,
}

/// One monitor with its desktops, in report order.
#[derive(Debug)]
pub struct Monitor {
    pub name: String,
    pub is_active: bool,
    pub desktops: Vec<Desktop>,
}

/// The whole window-manager state: the monitors in report order.
#[derive(Debug)]
pub struct Bspwm {
    pub monitors: Vec<Monitor>,
}

/// Mathematical image of a desktop.
#[verifier::ext_equal]
pub struct DesktopView {
    pub state: DesktopEnum,
    pub name: Seq<char>,
}

/// Mathematical image of a monitor.
#[verifier::ext_equal]
pub struct MonitorView {
    pub name: Seq<char>,
    pub is_active: bool,
    pub desktops: Seq<DesktopView>,
}

impl View for Desktop {
    type V = DesktopView;

    open spec fn view(&self) -> DesktopView {
        DesktopView { state: self.state, name: self.name@ }
    }
}

impl View for Monitor {
    type V = MonitorView;

    open spec fn view(&self) -> MonitorView {
        MonitorView {
            name: self.name@,
            is_active: self.is_active,
            desktops: self.desktops@.map_values(|d: Desktop| d@),
        }
    }
}

impl View for Bspwm {
    type V = Seq<MonitorView>;

    open spec fn view(&self) -> Seq<MonitorView> {
        self.monitors@.map_values(|m: Monitor| m@)
    }
}

/// Desktop names are unique within a monitor.
pub open spec fn wf_desktops(ds: Seq<DesktopView>) -> bool {
    forall|i: int, j: int| 0 <= i < j < ds.len() ==> ds[i].name != ds[j].name
}

/// Monitor names are unique, and each monitor's desktops are well formed.
pub open spec fn wf_monitors(ms: Seq<MonitorView>) -> bool {
    &&& forall|i: int, j: int| 0 <= i < j < ms.len() ==> ms[i].name != ms[j].name
    &&& forall|i: int| 0 <= i < ms.len() ==> wf_desktops((#[trigger] ms[i]).desktops)
}

/// Whether `c` opens a monitor section.
pub open spec fn is_monitor_tag(c: char) -> bool {
    c == 'M' || c == 'm'
}

/// Whether `c` opens a desktop entry.
pub open spec fn is_desktop_tag(c: char) -> bool {
    c == 'o' || c == 'O' || c == 'f' || c == 'F' || c == 'u' || c == 'U'
}

/// Whether `c` opens a layout, tag or flags segment, which is skipped.
pub open spec fn is_skip_tag(c: char) -> bool {
    c == 'L' || c == 'T' || c == 'G'
}

/// The position of the first `:` at or after `j`, or the end of `s`.
pub open spec fn scan_to_colon(s: Seq<char>, j: int) -> int
    decreases s.len() - j,
{
    if j < 0 || j >= s.len() {
        s.len() as int
    } else if s[j] == ':' {
        j
    } else {
        scan_to_colon(s, j + 1)
    }
}

/// The position of the first `:` or newline at or after `j`, or the end of
/// `s`.
pub open spec fn scan_to_break(s: Seq<char>, j: int) -> int
    decreases s.len() - j,
{
    if j < 0 || j >= s.len() {
        s.len() as int
    } else if s[j] == ':' || s[j] == '\n' {
        j
    } else {
        scan_to_break(s, j + 1)
    }
}

/// The colon scan lands between `j` and the end of `s`.
pub proof fn lemma_scan_to_colon_bounds(s: Seq<char>, j: int)
    requires
        0 <= j <= s.len(),
    ensures
        j <= scan_to_colon(s, j) <= s.len(),
    decreases s.len() - j,
{
    if j < s.len() && s[j] != ':' {
        lemma_scan_to_colon_bounds(s, j + 1);
    }
}

/// The break scan lands between `j` and the end of `s`.
pub proof fn lemma_scan_to_break_bounds(s: Seq<char>, j: int)
    requires
        0 <= j <= s.len(),
    ensures
        j <= scan_to_break(s, j) <= s.len(),
    decreases s.len() - j,
{
    if j < s.len() && s[j] != ':' && s[j] != '\n' {
        lemma_scan_to_break_bounds(s, j + 1);
    }
}

/// A position with no `:` before it, that is the end or holds a `:`, is
/// where the colon scan lands.
pub proof fn lemma_scan_to_colon_at(s: Seq<char>, start: int, j: int)
    requires
        0 <= start <= j <= s.len(),
        forall|k: int| start <= k < j ==> s[k] != ':',
        j == s.len() || s[j] == ':',
    ensures
        scan_to_colon(s, start) == j,
    decreases j - start,
{
    if start < j {
        lemma_scan_to_colon_at(s, start + 1, j);
    }
}

/// A position with no `:` or newline before it, that is the end or holds
/// one, is where the break scan lands.
pub proof fn lemma_scan_to_break_at(s: Seq<char>, start: int, j: int)
    requires
        0 <= start <= j <= s.len(),
        forall|k: int| start <= k < j ==> s[k] != ':' && s[k] != '\n',
        j == s.len() || s[j] == ':' || s[j] == '\n',
    ensures
        scan_to_break(s, start) == j,
    decreases j - start,
{
    if start < j {
        lemma_scan_to_break_at(s, start + 1, j);
    }
}

/// One parsed report item: a monitor section header, or a desktop entry.
pub enum ReportToken {
    Monitor { name: Seq<char>, active: bool },
    Desktop { name: Seq<char>, state: DesktopEnum },
}

/// The tokens of the report tail starting at position `i`: a monitor or
/// desktop tag yields a token whose name runs up to the next `:`, a skip
/// tag swallows everything up to the next `:` or newline, and any other
/// character is skipped.
pub open spec fn spec_tokens(s: Seq<char>, i: int) -> Seq<ReportToken>
    decreases s.len() - i,
    via spec_tokens_decreases
{
    if i < 0 || i >= s.len() {
        Seq::empty()
    } else if is_monitor_tag(s[i]) {
        let e = scan_to_colon(s, i + 1);
        seq![ReportToken::Monitor { name: s.subrange(i + 1, e), active: s[i] == 'M' }]
            + spec_tokens(s, e)
    } else if is_desktop_tag(s[i]) {
        let e = scan_to_colon(s, i + 1);
        seq![ReportToken::Desktop { name: s.subrange(i + 1, e), state: spec_desktop_state(s[i]) }]
            + spec_tokens(s, e)
    } else if is_skip_tag(s[i]) {
        spec_tokens(s, scan_to_break(s, i + 1))
    } else {
        spec_tokens(s, i + 1)
    }
}

#[via_fn]
proof fn spec_tokens_decreases(s: Seq<char>, i: int) {
    if 0 <= i < s.len() {
        lemma_scan_to_colon_bounds(s, i + 1);
        lemma_scan_to_break_bounds(s, i + 1);
    }
}

/// Whether some monitor in `ms` is named `name`.
pub open spec fn mon_has(ms: Seq<MonitorView>, name: Seq<char>) -> bool {
    exists|i: int| 0 <= i < ms.len() && ms[i].name == name
}

/// The first position of the monitor named `name`.
pub open spec fn mon_index(ms: Seq<MonitorView>, name: Seq<char>) -> int
    decreases ms.len(),
{
    if ms.len() == 0 {
        0
    } else if ms[0].name == name {
        0
    } else {
        1 + mon_index(ms.drop_first(), name)
    }
}

/// Whether some desktop in `ds` is named `name`.
pub open spec fn desk_has(ds: Seq<DesktopView>, name: Seq<char>) -> bool {
    exists|i: int| 0 <= i < ds.len() && ds[i].name == name
}

/// The first position of the desktop named `name`.
pub open spec fn desk_index(ds: Seq<DesktopView>, name: Seq<char>) -> int
    decreases ds.len(),
{
    if ds.len() == 0 {
        0
    } else if ds[0].name == name {
        0
    } else {
        1 + desk_index(ds.drop_first(), name)
    }
}

/// When a monitor named `name` exists, its first position is in range,
/// holds the name, and nothing before it does.
pub proof fn lemma_mon_index_of_has(ms: Seq<MonitorView>, name: Seq<char>)
    requires
        mon_has(ms, name),
    ensures
        0 <= mon_index(ms, name) < ms.len(),
        ms[mon_index(ms, name)].name == name,
        forall|j: int| 0 <= j < mon_index(ms, name) ==> ms[j].name != name,
    decreases ms.len(),
{
    if ms.len() > 0 && ms[0].name != name {
        assert(mon_has(ms.drop_first(), name)) by {
            let w = choose|i: int| 0 <= i < ms.len() && ms[i].name == name;
            assert(ms.drop_first()[w - 1] == ms[w]);
        }
        lemma_mon_index_of_has(ms.drop_first(), name);
        assert forall|j: int| 0 <= j < mon_index(ms, name) implies ms[j].name != name by {
            if j > 0 {
                assert(ms.drop_first()[j - 1] == ms[j]);
            }
        }
    }
}

/// When a desktop named `name` exists, its first position is in range,
/// holds the name, and nothing before it does.
pub proof fn lemma_desk_index_of_has(ds: Seq<DesktopView>, name: Seq<char>)
    requires
        desk_has(ds, name),
    ensures
        0 <= desk_index(ds, name) < ds.len(),
        ds[desk_index(ds, name)].name == name,
        forall|j: int| 0 <= j < desk_index(ds, name) ==> ds[j].name != name,
    decreases ds.len(),
{
    if ds.len() > 0 && ds[0].name != name {
        assert(desk_has(ds.drop_first(), name)) by {
            let w = choose|i: int| 0 <= i < ds.len() && ds[i].name == name;
            assert(ds.drop_first()[w - 1] == ds[w]);
        }
        lemma_desk_index_of_has(ds.drop_first(), name);
        assert forall|j: int| 0 <= j < desk_index(ds, name) implies ds[j].name != name by {
            if j > 0 {
                assert(ds.drop_first()[j - 1] == ds[j]);
            }
        }
    }
}

/// The position with the name and nothing matching before it is the first
/// position of that name.
pub proof fn lemma_mon_index_unique(ms: Seq<MonitorView>, name: Seq<char>, i: int)
    requires
        0 <= i < ms.len(),
        ms[i].name == name,
        forall|j: int| 0 <= j < i ==> ms[j].name != name,
    ensures
        mon_has(ms, name),
        mon_index(ms, name) == i,
{
    lemma_mon_index_of_has(ms, name);
    let x = mon_index(ms, name);
    if x < i {
        assert(ms[x].name != name);
    }
    if x > i {
        assert(ms[i].name != name);
    }
}

/// The position with the name and nothing matching before it is the first
/// position of that name.
pub proof fn lemma_desk_index_unique(ds: Seq<DesktopView>, name: Seq<char>, i: int)
    requires
        0 <= i < ds.len(),
        ds[i].name == name,
        forall|j: int| 0 <= j < i ==> ds[j].name != name,
    ensures
        desk_has(ds, name),
        desk_index(ds, name) == i,
{
    lemma_desk_index_of_has(ds, name);
    let x = desk_index(ds, name);
    if x < i {
        assert(ds[x].name != name);
    }
    if x > i {
        assert(ds[i].name != name);
    }
}

/// The state after a monitor section header: a monitor of that name gets
/// the activity flag, keeping its desktops; an unseen name is appended with
/// no desktops.
pub open spec fn upsert_monitor(ms: Seq<MonitorView>, name: Seq<char>, active: bool) -> Seq<
    MonitorView,
> {
    if mon_has(ms, name) {
        let i = mon_index(ms, name);
        ms.update(i, MonitorView { name: ms[i].name, is_active: active, desktops: ms[i].desktops })
    } else {
        ms.push(MonitorView { name, is_active: active, desktops: Seq::empty() })
    }
}

/// The desktop list after a desktop entry: a desktop of that name gets the
/// state; an unseen name is appended.
pub open spec fn upsert_desktop_in(ds: Seq<DesktopView>, name: Seq<char>, state: DesktopEnum) -> Seq<
    DesktopView,
> {
    if desk_has(ds, name) {
        ds.update(desk_index(ds, name), DesktopView { state, name })
    } else {
        ds.push(DesktopView { state, name })
    }
}

/// The state after a desktop entry under the monitor named `mon`: that
/// monitor's desktops are upserted; with no such monitor nothing changes.
pub open spec fn upsert_desktop(
    ms: Seq<MonitorView>,
    mon: Seq<char>,
    name: Seq<char>,
    state: DesktopEnum,
) -> Seq<MonitorView> {
    if mon_has(ms, mon) {
        let i = mon_index(ms, mon);
        ms.update(
            i,
            MonitorView {
                name: ms[i].name,
                is_active: ms[i].is_active,
                desktops: upsert_desktop_in(ms[i].desktops, name, state),
            },
        )
    } else {
        ms
    }
}

/// One token applied to the state and the current monitor: a monitor header
/// upserts and becomes current; a desktop entry upserts under the current
/// monitor and is dropped when there is none.
pub open spec fn apply_token(
    ms: Seq<MonitorView>,
    cur: Option<Seq<char>>,
    t: ReportToken,
) -> (Seq<MonitorView>, Option<Seq<char>>) {
    match t {
        ReportToken::Monitor { name, active } => (upsert_monitor(ms, name, active), Some(name)),
        ReportToken::Desktop { name, state } => match cur {
            Some(m) => (upsert_desktop(ms, m, name, state), cur),
            None => (ms, cur),
        },
    }
}

/// A token sequence folded over the state, threading the current monitor.
pub open spec fn apply_tokens(
    ms: Seq<MonitorView>,
    cur: Option<Seq<char>>,
    toks: Seq<ReportToken>,
) -> Seq<MonitorView>
    decreases toks.len(),
{
    if toks.len() == 0 {
        ms
    } else {
        let sc = apply_token(ms, cur, toks[0]);
        apply_tokens(sc.0, sc.1, toks.drop_first())
    }
}

/// The state after one whole report line: its tokens folded over the state,
/// starting with no current monitor.
pub open spec fn apply_report(ms: Seq<MonitorView>, report: Seq<char>) -> Seq<MonitorView> {
    apply_tokens(ms, None, spec_tokens(report, 0))
}

/// Unfolds the fold by one token.
pub proof fn lemma_apply_tokens_cons(
    ms: Seq<MonitorView>,
    cur: Option<Seq<char>>,
    t: ReportToken,
    rest: Seq<ReportToken>,
)
    ensures
        apply_tokens(ms, cur, seq![t] + rest) == apply_tokens(
            apply_token(ms, cur, t).0,
            apply_token(ms, cur, t).1,
            rest,
        ),
{
    let toks = seq![t] + rest;
    assert(toks[0] == t);
    assert(toks.drop_first() =~= rest);
}

/// A monitor upsert keeps names unique and desktop lists well formed.
pub proof fn lemma_upsert_monitor_wf(ms: Seq<MonitorView>, name: Seq<char>, active: bool)
    requires
        wf_monitors(ms),
    ensures
        wf_monitors(upsert_monitor(ms, name, active)),
{
    if mon_has(ms, name) {
        lemma_mon_index_of_has(ms, name);
    }
}

/// A desktop upsert keeps desktop names unique.
pub proof fn lemma_upsert_desktop_in_wf(ds: Seq<DesktopView>, name: Seq<char>, state: DesktopEnum)
    requires
        wf_desktops(ds),
    ensures
        wf_desktops(upsert_desktop_in(ds, name, state)),
{
    if desk_has(ds, name) {
        lemma_desk_index_of_has(ds, name);
    }
}

/// A desktop upsert keeps monitor names unique and desktop lists well
/// formed.
pub proof fn lemma_upsert_desktop_wf(
    ms: Seq<MonitorView>,
    mon: Seq<char>,
    name: Seq<char>,
    state: DesktopEnum,
)
    requires
        wf_monitors(ms),
    ensures
        wf_monitors(upsert_desktop(ms, mon, name, state)),
{
    if mon_has(ms, mon) {
        lemma_mon_index_of_has(ms, mon);
        lemma_upsert_desktop_in_wf(ms[mon_index(ms, mon)].desktops, name, state);
    }
}

/// The name of the current monitor: what the position `cur` points at.
pub open spec fn cur_name(cur: Option<usize>, ms: Seq<MonitorView>) -> Option<Seq<char>> {
    match cur {
        Some(i) => if i < ms.len() {
            Some(ms[i as int].name)
        } else {
            None
        },
        None => None,
    }
}

/// The position of the first `:` in `report` at or after `start`, or the
/// end.
fn scan_colon(report: &str, len: usize, start: usize) -> (r: usize)
    requires
        len == report@.len(),
        start <= len,
    ensures
        r == scan_to_colon(report@, start as int),
        start <= r <= len,
{
    let mut j: usize = start;
    while j < len
        invariant
            start <= j <= len,
            len == report@.len(),
            forall|k: int| start <= k < j ==> report@[k] != ':',
        decreases len - j,
    {
        if report.get_char(j) == ':' {
            proof {
                lemma_scan_to_colon_at(report@, start as int, j as int);
            }
            return j;
        }
        j = j + 1;
    }
    proof {
        lemma_scan_to_colon_at(report@, start as int, j as int);
    }
    j
}

/// The position of the first `:` or newline in `report` at or after
/// `start`, or the end.
fn scan_break(report: &str, len: usize, start: usize) -> (r: usize)
    requires
        len == report@.len(),
        start <= len,
    ensures
        r == scan_to_break(report@, start as int),
        start <= r <= len,
{
    let mut j: usize = start;
    while j < len
        invariant
            start <= j <= len,
            len == report@.len(),
            forall|k: int| start <= k < j ==> report@[k] != ':' && report@[k] != '\n',
        decreases len - j,
    {
        let c = report.get_char(j);
        if c == ':' || c == '\n' {
            proof {
                lemma_scan_to_break_at(report@, start as int, j as int);
            }
            return j;
        }
        j = j + 1;
    }
    proof {
        lemma_scan_to_break_at(report@, start as int, j as int);
    }
    j
}

/// The characters of `report` from `start` up to `end`, as an owned string.
fn substr(report: &str, start: usize, end: usize) -> (r: String)
    requires
        start <= end <= report@.len(),
    ensures
        r@ == report@.subrange(start as int, end as int),
{
    let sub = report.substring_char(start, end);
    sub.to_owned()
}

/// The position of the first monitor named `name`, or `None`.
fn find_monitor(ms: &Vec<Monitor>, name: &String) -> (r: Option<usize>)
    ensures
        match r {
            Some(i) => {
                &&& i < ms@.len()
                &&& (#[trigger] ms@[i as int])@.name == name@
                &&& forall|j: int| 0 <= j < i ==> (#[trigger] ms@[j])@.name != name@
            },
            None => forall|j: int| 0 <= j < ms@.len() ==> (#[trigger] ms@[j])@.name != name@,
        },
{
    let mut k: usize = 0;
    while k < ms.len()
        invariant
            k <= ms@.len(),
            forall|j: int| 0 <= j < k ==> (#[trigger] ms@[j])@.name != name@,
        decreases ms@.len() - k,
    {
        if ms[k].name == *name {
            return Some(k);
        }
        k = k + 1;
    }
    None
}

/// The position of the first desktop named `name`, or `None`.
fn find_desktop(ds: &Vec<Desktop>, name: &String) -> (r: Option<usize>)
    ensures
        match r {
            Some(i) => {
                &&& i < ds@.len()
                &&& (#[trigger] ds@[i as int])@.name == name@
                &&& forall|j: int| 0 <= j < i ==> (#[trigger] ds@[j])@.name != name@
            },
            None => forall|j: int| 0 <= j < ds@.len() ==> (#[trigger] ds@[j])@.name != name@,
        },
{
    let mut k: usize = 0;
    while k < ds.len()
        invariant
            k <= ds@.len(),
            forall|j: int| 0 <= j < k ==> (#[trigger] ds@[j])@.name != name@,
        decreases ds@.len() - k,
    {
        if ds[k].name == *name {
            return Some(k);
        }
        k = k + 1;
    }
    None
}

impl Bspwm {
    /// Scans one report line left to right and applies it to the model as
    /// upserts: monitor headers update or append monitors, desktop entries
    /// update or append desktops under the monitor whose section they stand
    /// in, and a desktop entry before any monitor header is dropped.
    /// Malformed bytes are skipped; nothing is removed.
    pub fn parse_report(&mut self, report: &str)
        requires
            wf_monitors(old(self)@),
        ensures
            final(self)@ == apply_report(old(self)@, report@),
            wf_monitors(final(self)@),
    {
        let ghost orig = old(self)@;
        let ghost s = report@;
        let len: usize = report.unicode_len();
        let mut i: usize = 0;
        let mut cur: Option<usize> = None;
        while i < len
            invariant
                len == s.len(),
                s == report@,
                i <= len,
                wf_monitors(self@),
                match cur {
                    Some(mi) => mi < self@.len(),
                    None => true,
                },
                apply_tokens(self@, cur_name(cur, self@), spec_tokens(s, i as int))
                    == apply_report(orig, s),
            decreases len - i,
        {
            let c = report.get_char(i);
            if c == 'M' || c == 'm' {
                let is_active = c == 'M';
                let e = scan_colon(report, len, i + 1);
                let name = substr(report, i + 1, e);
                let ghost nm = name@;
                let ghost prev = self@;
                let ghost prev_cur = cur_name(cur, prev);
                let ghost tok = ReportToken::Monitor { name: nm, active: is_active };
                let ghost rest = spec_tokens(s, e as int);
                proof {
                    assert(spec_tokens(s, i as int) =~= seq![tok] + rest);
                    lemma_apply_tokens_cons(prev, prev_cur, tok, rest);
                    lemma_upsert_monitor_wf(prev, nm, is_active);
                }
                match find_monitor(&self.monitors, &name) {
                    Some(mi) => {
                        let m = &mut self.monitors[mi];
                        m.is_active = is_active;
                        cur = Some(mi);
                        proof {
                            lemma_mon_index_unique(prev, nm, mi as int);
                            assert(self@ =~~= upsert_monitor(prev, nm, is_active));
                        }
                    },
                    None => {
                        self.monitors.push(Monitor { name, is_active, desktops: Vec::new() });
                        cur = Some(self.monitors.len() - 1);
                        proof {
                            assert(!mon_has(prev, nm));
                            assert(self@ =~~= upsert_monitor(prev, nm, is_active));
                        }
                    },
                }
                proof {
                    assert(cur_name(cur, self@) == Some(nm));
                }
                i = e;
            } else if c == 'o' || c == 'O' || c == 'f' || c == 'F' || c == 'u' || c == 'U' {
                let state = match DesktopEnum::from_char(c) {
                    Some(st) => st,
                    None => DesktopEnum::FREE,
                };
                let e = scan_colon(report, len, i + 1);
                let name = substr(report, i + 1, e);
                let ghost nm = name@;
                let ghost prev = self@;
                let ghost prev_cur = cur_name(cur, prev);
                let ghost tok = ReportToken::Desktop { name: nm, state };
                let ghost rest = spec_tokens(s, e as int);
                proof {
                    assert(spec_tokens(s, i as int) =~= seq![tok] + rest);
                    lemma_apply_tokens_cons(prev, prev_cur, tok, rest);
                }
                match cur {
                    Some(mi) => {
                        let ghost mname = prev[mi as int].name;
                        proof {
                            lemma_mon_index_unique(prev, mname, mi as int);
                            lemma_upsert_desktop_wf(prev, mname, nm, state);
                        }
                        let m = &mut self.monitors[mi];
                        let ghost md = m@.desktops;
                        match find_desktop(&m.desktops, &name) {
                            Some(di) => {
                                let d = &mut m.desktops[di];
                                d.state = state;
                                proof {
                                    lemma_desk_index_unique(md, nm, di as int);
                                    assert(final(m)@.desktops =~~= upsert_desktop_in(md, nm, state));
                                }
                            },
                            None => {
                                m.desktops.push(Desktop { state, name });
                                proof {
                                    assert(!desk_has(md, nm));
                                    assert(final(m)@.desktops =~~= upsert_desktop_in(md, nm, state));
                                }
                            },
                        }
                        proof {
                            assert(self@ =~~= upsert_desktop(prev, mname, nm, state));
                            assert(cur_name(cur, self@) == prev_cur);
                        }
                    },
                    None => {},
                }
                i = e;
            } else if c == 'L' || c == 'T' || c == 'G' {
                let e = scan_break(report, len, i + 1);
                i = e;
            } else {
                i = i + 1;
            }
        }
        proof {
            assert(spec_tokens(s, len as int) =~= Seq::<ReportToken>::empty());
        }
    }
}

/// The socket path synthesized from a parsed X display: the standard
/// window-manager socket location for that host, display and screen.
pub fn bspwm_socket_path(host: &str, display: i32, screen: i32) -> (r: String)
    ensures
        r@ == "/tmp/bspwm"@ + host@ + "_"@ + dec_str(display as int) + "_"@ + dec_str(
            screen as int,
        ) + "-socket"@,
{
    let mut p = String::from_str("/tmp/bspwm");
    p.append(host);
    p.append("_");
    let d = i32_to_string(display);
    p.append(d.as_str());
    p.append("_");
    let sc = i32_to_string(screen);
    p.append(sc.as_str());
    p.append("-socket");
    p
}

/// Relies on xcb::parse_display: with an empty name it resolves the X
/// display string from the environment into host name, display number and
/// screen number, or fails.  The result depends on the environment, so
/// nothing is promised of it.  Inherited hazard: the outside function
/// aborts the process when the environment names a host that is not valid
/// UTF-8; nothing callable here can test the environment first.
#[verifier::external_body]
fn parse_display_env() -> (r: Option<(String, i32, i32)>) {
    match xcb::parse_display("") {
        Some(di) => Some((di.host, di.display, di.screen)),
        None => None,
    }
}

/// The socket path for the display the environment names, or `None` when
/// no display can be resolved from the environment.  Whatever the
/// environment held, a returned path is the standard socket location for
/// some host, display number and screen number.
pub fn default_socket_path() -> (r: Option<String>)
    ensures
        r matches Some(p) ==> exists|h: Seq<char>, d: int, sc: int|
            p@ == "/tmp/bspwm"@ + h + "_"@ + dec_str(d) + "_"@ + dec_str(sc) + "-socket"@,
{
    match parse_display_env() {
        Some((host, display, screen)) => {
            let p = bspwm_socket_path(host.as_str(), display, screen);
            proof {
                let h = host@;
                let d = display as int;
                let sc = screen as int;
                assert(p@ == "/tmp/bspwm"@ + h + "_"@ + dec_str(d) + "_"@ + dec_str(sc)
                    + "-socket"@);
            }
            Some(p)
        },
        None => None,
    }
}

/// A report that opens no monitor section and no desktop entry leaves the
/// model exactly as it was: garbage bytes create nothing.
pub proof fn lemma_report_without_tags_is_noop(ms: Seq<MonitorView>, s: Seq<char>)
    requires
        forall|k: int|
            0 <= k < s.len() ==> !is_monitor_tag(#[trigger] s[k]) && !is_desktop_tag(s[k]),
    ensures
        apply_report(ms, s) == ms,
{
    lemma_tokens_empty_without_tags(s, 0);
}

/// The token scan of a tail without monitor or desktop tags yields no
/// tokens.
proof fn lemma_tokens_empty_without_tags(s: Seq<char>, i: int)
    requires
        0 <= i <= s.len(),
        forall|k: int|
            i <= k < s.len() ==> !is_monitor_tag(#[trigger] s[k]) && !is_desktop_tag(s[k]),
    ensures
        spec_tokens(s, i) =~= Seq::<ReportToken>::empty(),
    decreases s.len() - i,
{
    if i < s.len() {
        if is_skip_tag(s[i]) {
            lemma_scan_to_break_bounds(s, i + 1);
            lemma_tokens_empty_without_tags(s, scan_to_break(s, i + 1));
        } else {
            lemma_tokens_empty_without_tags(s, i + 1);
        }
    }
}

/// The activity flag of the monitor named `n` (meaningful when present).
pub open spec fn active_of(ms: Seq<MonitorView>, n: Seq<char>) -> bool {
    ms[mon_index(ms, n)].is_active
}

/// The desktops of the monitor named `m` (meaningful when present).
pub open spec fn desks_of(ms: Seq<MonitorView>, m: Seq<char>) -> Seq<DesktopView> {
    ms[mon_index(ms, m)].desktops
}

/// The state of the desktop named `d` in `ds` (meaningful when present).
pub open spec fn desk_state_in(ds: Seq<DesktopView>, d: Seq<char>) -> DesktopEnum {
    ds[desk_index(ds, d)].state
}

/// Whether the monitor named `m` exists and holds a desktop named `d`.
pub open spec fn desk_in(ms: Seq<MonitorView>, m: Seq<char>, d: Seq<char>) -> bool {
    mon_has(ms, m) && desk_has(desks_of(ms, m), d)
}

/// Whether the token sequence writes the activity of the monitor named `n`.
pub open spec fn writes_mon(toks: Seq<ReportToken>, n: Seq<char>) -> bool
    decreases toks.len(),
{
    if toks.len() == 0 {
        false
    } else {
        (match toks[0] {
            ReportToken::Monitor { name, active } => name == n,
            ReportToken::Desktop { name, state } => false,
        }) || writes_mon(toks.drop_first(), n)
    }
}

/// Whether the token sequence, entered with `cur` as the current monitor,
/// writes the state of the desktop named `d` under the monitor named `m`.
pub open spec fn writes_desk(
    toks: Seq<ReportToken>,
    cur: Option<Seq<char>>,
    m: Seq<char>,
    d: Seq<char>,
) -> bool
    decreases toks.len(),
{
    if toks.len() == 0 {
        false
    } else {
        match toks[0] {
            ReportToken::Monitor { name, active } => writes_desk(
                toks.drop_first(),
                Some(name),
                m,
                d,
            ),
            ReportToken::Desktop { name, state } => (cur == Some(m) && name == d) || writes_desk(
                toks.drop_first(),
                cur,
                m,
                d,
            ),
        }
    }
}

/// Two monitor sequences with the same names position their names at the
/// same first index.
pub proof fn lemma_mon_index_congruent(x: Seq<MonitorView>, y: Seq<MonitorView>, n: Seq<char>)
    requires
        x.len() == y.len(),
        forall|k: int| 0 <= k < x.len() ==> x[k].name == y[k].name,
    ensures
        mon_index(x, n) == mon_index(y, n),
        mon_has(x, n) <==> mon_has(y, n),
    decreases x.len(),
{
    if x.len() > 0 && x[0].name != n {
        assert forall|k: int| 0 <= k < x.drop_first().len()
            implies x.drop_first()[k].name == y.drop_first()[k].name by {
            assert(x.drop_first()[k] == x[k + 1]);
            assert(y.drop_first()[k] == y[k + 1]);
        }
        lemma_mon_index_congruent(x.drop_first(), y.drop_first(), n);
        assert(mon_has(x, n) ==> mon_has(y, n)) by {
            if mon_has(x, n) {
                let w = choose|i: int| 0 <= i < x.len() && x[i].name == n;
                assert(y[w].name == n);
            }
        }
        assert(mon_has(y, n) ==> mon_has(x, n)) by {
            if mon_has(y, n) {
                let w = choose|i: int| 0 <= i < y.len() && y[i].name == n;
                assert(x[w].name == n);
            }
        }
    } else if x.len() > 0 {
        assert(y[0].name == n);
    }
}

/// Two desktop sequences with the same names position their names at the
/// same first index.
pub proof fn lemma_desk_index_congruent(x: Seq<DesktopView>, y: Seq<DesktopView>, d: Seq<char>)
    requires
        x.len() == y.len(),
        forall|k: int| 0 <= k < x.len() ==> x[k].name == y[k].name,
    ensures
        desk_index(x, d) == desk_index(y, d),
        desk_has(x, d) <==> desk_has(y, d),
    decreases x.len(),
{
    if x.len() > 0 && x[0].name != d {
        assert forall|k: int| 0 <= k < x.drop_first().len()
            implies x.drop_first()[k].name == y.drop_first()[k].name by {
            assert(x.drop_first()[k] == x[k + 1]);
            assert(y.drop_first()[k] == y[k + 1]);
        }
        lemma_desk_index_congruent(x.drop_first(), y.drop_first(), d);
        assert(desk_has(x, d) ==> desk_has(y, d)) by {
            if desk_has(x, d) {
                let w = choose|i: int| 0 <= i < x.len() && x[i].name == d;
                assert(y[w].name == d);
            }
        }
        assert(desk_has(y, d) ==> desk_has(x, d)) by {
            if desk_has(y, d) {
                let w = choose|i: int| 0 <= i < y.len() && y[i].name == d;
                assert(x[w].name == d);
            }
        }
    } else if x.len() > 0 {
        assert(y[0].name == d);
    }
}

/// Growing a monitor sequence at the end, names kept, moves no name's
/// first position.
pub proof fn lemma_mon_index_stable(x: Seq<MonitorView>, y: Seq<MonitorView>, n: Seq<char>)
    requires
        mon_has(x, n),
        x.len() <= y.len(),
        forall|k: int| 0 <= k < x.len() ==> x[k].name == y[k].name,
    ensures
        mon_has(y, n),
        mon_index(y, n) == mon_index(x, n),
{
    lemma_mon_index_of_has(x, n);
    let i = mon_index(x, n);
    lemma_mon_index_unique(y, n, i);
}

/// A monitor upsert holds the upserted name afterward, with the written
/// activity flag, desktops carried over for an existing monitor, and the
/// other monitors untouched.
pub proof fn lemma_upsert_monitor_after(ms: Seq<MonitorView>, n: Seq<char>, a: bool)
    ensures
        mon_has(upsert_monitor(ms, n, a), n),
        active_of(upsert_monitor(ms, n, a), n) == a,
        mon_has(ms, n) ==> upsert_monitor(ms, n, a).len() == ms.len(),
        !mon_has(ms, n) ==> upsert_monitor(ms, n, a).len() == ms.len() + 1,
        forall|k: int|
            0 <= k < ms.len() ==> (#[trigger] upsert_monitor(ms, n, a)[k]).name == ms[k].name,
        mon_index(upsert_monitor(ms, n, a), n) == if mon_has(ms, n) {
            mon_index(ms, n)
        } else {
            ms.len() as int
        },
{
    let r = upsert_monitor(ms, n, a);
    if mon_has(ms, n) {
        lemma_mon_index_of_has(ms, n);
        let i = mon_index(ms, n);
        lemma_mon_index_unique(r, n, i);
    } else {
        assert forall|j: int| 0 <= j < ms.len() implies r[j].name != n by {
            assert(!(0 <= j < ms.len() && ms[j].name == n));
        }
        lemma_mon_index_unique(r, n, ms.len() as int);
    }
}

/// A desktop upsert in a desktop list holds the upserted name afterward
/// with the written state, and the other names and states untouched.
pub proof fn lemma_upsert_desktop_in_after(ds: Seq<DesktopView>, d: Seq<char>, st: DesktopEnum)
    ensures
        desk_has(upsert_desktop_in(ds, d, st), d),
        desk_state_in(upsert_desktop_in(ds, d, st), d) == st,
        desk_has(ds, d) ==> upsert_desktop_in(ds, d, st).len() == ds.len(),
        !desk_has(ds, d) ==> upsert_desktop_in(ds, d, st).len() == ds.len() + 1,
        forall|k: int|
            0 <= k < ds.len() ==> (#[trigger] upsert_desktop_in(ds, d, st)[k]).name == ds[k].name,
        forall|k: int|
            0 <= k < ds.len() && ds[k].name != d ==> (#[trigger] upsert_desktop_in(ds, d, st)[k])
                == ds[k],
{
    let r = upsert_desktop_in(ds, d, st);
    if desk_has(ds, d) {
        lemma_desk_index_of_has(ds, d);
        let i = desk_index(ds, d);
        lemma_desk_index_unique(r, d, i);
    } else {
        assert forall|j: int| 0 <= j < ds.len() implies r[j].name != d by {
            assert(!(0 <= j < ds.len() && ds[j].name == d));
        }
        lemma_desk_index_unique(r, d, ds.len() as int);
    }
}

/// A desktop upsert under a present monitor holds that desktop afterward
/// with the written state; names, lengths and activity flags are untouched.
pub proof fn lemma_upsert_desktop_after(
    ms: Seq<MonitorView>,
    m: Seq<char>,
    d: Seq<char>,
    st: DesktopEnum,
)
    requires
        mon_has(ms, m),
    ensures
        upsert_desktop(ms, m, d, st).len() == ms.len(),
        forall|k: int|
            0 <= k < ms.len() ==> (#[trigger] upsert_desktop(ms, m, d, st)[k]).name == ms[k].name
                && upsert_desktop(ms, m, d, st)[k].is_active == ms[k].is_active,
        mon_index(upsert_desktop(ms, m, d, st), m) == mon_index(ms, m),
        desk_in(upsert_desktop(ms, m, d, st), m, d),
        desk_state_in(desks_of(upsert_desktop(ms, m, d, st), m), d) == st,
        forall|k: int|
            0 <= k < ms.len() && ms[k].name != m ==> (#[trigger] upsert_desktop(ms, m, d, st)[k])
                == ms[k],
{
    let r = upsert_desktop(ms, m, d, st);
    lemma_mon_index_of_has(ms, m);
    let i = mon_index(ms, m);
    lemma_mon_index_unique(r, m, i);
    lemma_upsert_desktop_in_after(ms[i].desktops, d, st);
}

/// A monitor upsert whose values already stand in the state changes
/// nothing.
pub proof fn lemma_upsert_monitor_absorb(ms: Seq<MonitorView>, n: Seq<char>, a: bool)
    requires
        mon_has(ms, n),
        active_of(ms, n) == a,
    ensures
        upsert_monitor(ms, n, a) == ms,
{
    lemma_mon_index_of_has(ms, n);
    assert(upsert_monitor(ms, n, a) =~~= ms);
}

/// A desktop upsert whose state already stands in the monitor changes
/// nothing.
pub proof fn lemma_upsert_desktop_absorb(
    ms: Seq<MonitorView>,
    m: Seq<char>,
    d: Seq<char>,
    st: DesktopEnum,
)
    requires
        desk_in(ms, m, d),
        desk_state_in(desks_of(ms, m), d) == st,
    ensures
        upsert_desktop(ms, m, d, st) == ms,
{
    lemma_mon_index_of_has(ms, m);
    let ds = desks_of(ms, m);
    lemma_desk_index_of_has(ds, d);
    assert(upsert_desktop_in(ds, d, st) =~~= ds);
    assert(upsert_desktop(ms, m, d, st) =~~= ms);
}

/// The fold preserves well-formedness.
pub proof fn lemma_apply_tokens_wf(
    ms: Seq<MonitorView>,
    cur: Option<Seq<char>>,
    toks: Seq<ReportToken>,
)
    requires
        wf_monitors(ms),
    ensures
        wf_monitors(apply_tokens(ms, cur, toks)),
    decreases toks.len(),
{
    if toks.len() > 0 {
        let sc = apply_token(ms, cur, toks[0]);
        match toks[0] {
            ReportToken::Monitor { name, active } => {
                lemma_upsert_monitor_wf(ms, name, active);
            },
            ReportToken::Desktop { name, state } => {
                match cur {
                    Some(m) => lemma_upsert_desktop_wf(ms, m, name, state),
                    None => {},
                }
            },
        }
        lemma_apply_tokens_wf(sc.0, sc.1, toks.drop_first());
    }
}

/// The fold never removes, reorders or renames monitors: the names of the
/// starting state stand unchanged at their positions, and the state only
/// grows.
pub proof fn lemma_fold_names_grow(
    ms: Seq<MonitorView>,
    cur: Option<Seq<char>>,
    toks: Seq<ReportToken>,
)
    ensures
        apply_tokens(ms, cur, toks).len() >= ms.len(),
        forall|k: int|
            0 <= k < ms.len() ==> (#[trigger] apply_tokens(ms, cur, toks)[k]).name == ms[k].name,
    decreases toks.len(),
{
    if toks.len() > 0 {
        let sc = apply_token(ms, cur, toks[0]);
        match toks[0] {
            ReportToken::Monitor { name, active } => {
                lemma_upsert_monitor_after(ms, name, active);
            },
            ReportToken::Desktop { name, state } => {
                match cur {
                    Some(m) => {
                        if mon_has(ms, m) {
                            lemma_upsert_desktop_after(ms, m, name, state);
                        }
                    },
                    None => {},
                }
            },
        }
        lemma_fold_names_grow(sc.0, sc.1, toks.drop_first());
    }
}

/// A fold that never writes the monitor named `n` keeps that monitor's
/// activity flag.
pub proof fn lemma_frame_mon(
    ms: Seq<MonitorView>,
    cur: Option<Seq<char>>,
    toks: Seq<ReportToken>,
    n: Seq<char>,
)
    requires
        mon_has(ms, n),
        !writes_mon(toks, n),
    ensures
        mon_has(apply_tokens(ms, cur, toks), n),
        mon_index(apply_tokens(ms, cur, toks), n) == mon_index(ms, n),
        active_of(apply_tokens(ms, cur, toks), n) == active_of(ms, n),
    decreases toks.len(),
{
    lemma_mon_index_of_has(ms, n);
    let i = mon_index(ms, n);
    if toks.len() > 0 {
        let sc = apply_token(ms, cur, toks[0]);
        match toks[0] {
            ReportToken::Monitor { name, active } => {
                lemma_upsert_monitor_after(ms, name, active);
                lemma_mon_index_stable(ms, sc.0, n);
                if mon_has(ms, name) {
                    lemma_mon_index_of_has(ms, name);
                    assert(mon_index(ms, name) != i);
                }
                assert(active_of(sc.0, n) == active_of(ms, n));
            },
            ReportToken::Desktop { name, state } => {
                match cur {
                    Some(m) => {
                        if mon_has(ms, m) {
                            lemma_upsert_desktop_after(ms, m, name, state);
                            lemma_mon_index_stable(ms, sc.0, n);
                        }
                    },
                    None => {},
                }
            },
        }
        lemma_frame_mon(sc.0, sc.1, toks.drop_first(), n);
    }
}

/// The fold keeps every desktop that exists under its monitor.
pub proof fn lemma_fold_desk_presence(
    ms: Seq<MonitorView>,
    cur: Option<Seq<char>>,
    toks: Seq<ReportToken>,
    m: Seq<char>,
    d: Seq<char>,
)
    requires
        desk_in(ms, m, d),
    ensures
        desk_in(apply_tokens(ms, cur, toks), m, d),
    decreases toks.len(),
{
    lemma_mon_index_of_has(ms, m);
    if toks.len() > 0 {
        let sc = apply_token(ms, cur, toks[0]);
        match toks[0] {
            ReportToken::Monitor { name, active } => {
                lemma_upsert_monitor_after(ms, name, active);
                lemma_mon_index_stable(ms, sc.0, m);
                if mon_has(ms, name) {
                    lemma_mon_index_of_has(ms, name);
                }
                assert(desks_of(sc.0, m) == desks_of(ms, m));
            },
            ReportToken::Desktop { name, state } => {
                match cur {
                    Some(mc) => {
                        if mon_has(ms, mc) {
                            lemma_upsert_desktop_after(ms, mc, name, state);
                            lemma_mon_index_stable(ms, sc.0, m);
                            lemma_mon_index_of_has(ms, mc);
                            if mc == m {
                                lemma_upsert_desktop_in_after(desks_of(ms, m), name, state);
                                let nds = desks_of(sc.0, m);
                                let ds = desks_of(ms, m);
                                lemma_desk_index_of_has(ds, d);
                                let di = desk_index(ds, d);
                                assert(nds[di].name == d);
                            } else {
                                assert(desks_of(sc.0, m) == desks_of(ms, m));
                            }
                        }
                    },
                    None => {},
                }
            },
        }
        lemma_fold_desk_presence(sc.0, sc.1, toks.drop_first(), m, d);
    }
}

/// A fold that never writes the desktop named `d` under the monitor named
/// `m` keeps that desktop's state.
pub proof fn lemma_frame_desk(
    ms: Seq<MonitorView>,
    cur: Option<Seq<char>>,
    toks: Seq<ReportToken>,
    m: Seq<char>,
    d: Seq<char>,
)
    requires
        desk_in(ms, m, d),
        !writes_desk(toks, cur, m, d),
    ensures
        desk_in(apply_tokens(ms, cur, toks), m, d),
        desk_state_in(desks_of(apply_tokens(ms, cur, toks), m), d) == desk_state_in(
            desks_of(ms, m),
            d,
        ),
    decreases toks.len(),
{
    lemma_mon_index_of_has(ms, m);
    lemma_desk_index_of_has(desks_of(ms, m), d);
    if toks.len() > 0 {
        let sc = apply_token(ms, cur, toks[0]);
        match toks[0] {
            ReportToken::Monitor { name, active } => {
                lemma_upsert_monitor_after(ms, name, active);
                lemma_mon_index_stable(ms, sc.0, m);
                if mon_has(ms, name) {
                    lemma_mon_index_of_has(ms, name);
                }
                assert(desks_of(sc.0, m) == desks_of(ms, m));
            },
            ReportToken::Desktop { name, state } => {
                match cur {
                    Some(mc) => {
                        if mon_has(ms, mc) {
                            lemma_upsert_desktop_after(ms, mc, name, state);
                            lemma_mon_index_stable(ms, sc.0, m);
                            lemma_mon_index_of_has(ms, mc);
                            if mc == m {
                                let ds = desks_of(ms, m);
                                lemma_upsert_desktop_in_after(ds, name, state);
                                let nds = desks_of(sc.0, m);
                                let di = desk_index(ds, d);
                                assert(name != d);
                                assert(nds[di] == ds[di]);
                                lemma_desk_index_unique(nds, d, di);
                            } else {
                                assert(desks_of(sc.0, m) == desks_of(ms, m));
                            }
                        }
                    },
                    None => {},
                }
            },
        }
        lemma_frame_desk(sc.0, sc.1, toks.drop_first(), m, d);
    }
}

/// Two desktop lists equal in names and, off the desktop named `d`, in
/// states.
pub open spec fn eq_desks_except(xd: Seq<DesktopView>, yd: Seq<DesktopView>, d: Seq<char>) -> bool {
    &&& xd.len() == yd.len()
    &&& forall|k: int| 0 <= k < xd.len() ==> (#[trigger] xd[k]).name == yd[k].name
    &&& forall|k: int|
        0 <= k < xd.len() && xd[k].name != d ==> (#[trigger] xd[k]).state == yd[k].state
}

/// Two states equal everywhere but, possibly, in the activity flag of the
/// monitor named `n`.
pub open spec fn eq_except_mon_active(
    x: Seq<MonitorView>,
    y: Seq<MonitorView>,
    n: Seq<char>,
) -> bool {
    &&& x.len() == y.len()
    &&& forall|k: int|
        0 <= k < x.len() ==> (#[trigger] x[k]).name == y[k].name && x[k].desktops == y[k].desktops
    &&& forall|k: int|
        0 <= k < x.len() && x[k].name != n ==> (#[trigger] x[k]).is_active == y[k].is_active
}

/// Two states equal everywhere but, possibly, in the state of the desktop
/// named `d` under the monitor named `m`.
pub open spec fn eq_except_desk_state(
    x: Seq<MonitorView>,
    y: Seq<MonitorView>,
    m: Seq<char>,
    d: Seq<char>,
) -> bool {
    &&& x.len() == y.len()
    &&& forall|k: int|
        0 <= k < x.len() ==> (#[trigger] x[k]).name == y[k].name && x[k].is_active
            == y[k].is_active
    &&& forall|k: int|
        0 <= k < x.len() ==> if x[k].name == m {
            eq_desks_except((#[trigger] x[k]).desktops, y[k].desktops, d)
        } else {
            x[k].desktops == y[k].desktops
        }
}

/// Folding the same tokens over two states that differ only in the
/// activity of the monitor named `n` gives equal results once the tokens
/// write that activity, and keeps the difference confined otherwise.
pub proof fn lemma_converge_mon(
    x: Seq<MonitorView>,
    y: Seq<MonitorView>,
    cur: Option<Seq<char>>,
    toks: Seq<ReportToken>,
    n: Seq<char>,
)
    requires
        wf_monitors(x),
        eq_except_mon_active(x, y, n),
    ensures
        writes_mon(toks, n) ==> apply_tokens(x, cur, toks) == apply_tokens(y, cur, toks),
        !writes_mon(toks, n) ==> eq_except_mon_active(
            apply_tokens(x, cur, toks),
            apply_tokens(y, cur, toks),
            n,
        ),
    decreases toks.len(),
{
    if toks.len() > 0 {
        let rest = toks.drop_first();
        let scx = apply_token(x, cur, toks[0]);
        let scy = apply_token(y, cur, toks[0]);
        match toks[0] {
            ReportToken::Monitor { name, active } => {
                lemma_mon_index_congruent(x, y, name);
                lemma_upsert_monitor_wf(x, name, active);
                if name == n {
                    if mon_has(x, name) {
                        lemma_mon_index_of_has(x, name);
                        let i = mon_index(x, name);
                        assert(scx.0 =~~= scy.0) by {
                            assert forall|k: int| 0 <= k < x.len() && k != i implies x[k] =~~= y[k] by {
                                if k < i {
                                    assert(x[k].name != x[i].name);
                                } else {
                                    assert(x[i].name != x[k].name);
                                }
                            }
                        }
                    } else {
                        assert(x =~~= y) by {
                            assert forall|k: int| 0 <= k < x.len() implies x[k] =~~= y[k] by {
                                assert(!(0 <= k < x.len() && x[k].name == n));
                            }
                        }
                    }
                    assert(apply_tokens(scx.0, scx.1, rest) == apply_tokens(scy.0, scy.1, rest));
                } else {
                    if mon_has(x, name) {
                        lemma_mon_index_of_has(x, name);
                        lemma_upsert_monitor_after(x, name, active);
                        lemma_upsert_monitor_after(y, name, active);
                        assert(eq_except_mon_active(scx.0, scy.0, n));
                    } else {
                        lemma_upsert_monitor_after(x, name, active);
                        lemma_upsert_monitor_after(y, name, active);
                        assert(eq_except_mon_active(scx.0, scy.0, n));
                    }
                    lemma_converge_mon(scx.0, scy.0, Some(name), rest, n);
                }
            },
            ReportToken::Desktop { name, state } => {
                match cur {
                    Some(mc) => {
                        lemma_mon_index_congruent(x, y, mc);
                        lemma_upsert_desktop_wf(x, mc, name, state);
                        if mon_has(x, mc) {
                            lemma_mon_index_of_has(x, mc);
                            lemma_upsert_desktop_after(x, mc, name, state);
                            lemma_upsert_desktop_after(y, mc, name, state);
                            let i = mon_index(x, mc);
                            assert(x[i].desktops == y[i].desktops);
                            assert(eq_except_mon_active(scx.0, scy.0, n));
                        }
                        lemma_converge_mon(scx.0, scy.0, cur, rest, n);
                    },
                    None => {
                        lemma_converge_mon(x, y, cur, rest, n);
                    },
                }
            },
        }
    }
}

/// Folding the same tokens over two states that differ only in the state
/// of the desktop named `d` under the monitor named `m` gives equal
/// results once the tokens write that desktop, and keeps the difference
/// confined otherwise.
pub proof fn lemma_converge_desk(
    x: Seq<MonitorView>,
    y: Seq<MonitorView>,
    cur: Option<Seq<char>>,
    toks: Seq<ReportToken>,
    m: Seq<char>,
    d: Seq<char>,
)
    requires
        wf_monitors(x),
        eq_except_desk_state(x, y, m, d),
    ensures
        writes_desk(toks, cur, m, d) ==> apply_tokens(x, cur, toks) == apply_tokens(y, cur, toks),
        !writes_desk(toks, cur, m, d) ==> eq_except_desk_state(
            apply_tokens(x, cur, toks),
            apply_tokens(y, cur, toks),
            m,
            d,
        ),
    decreases toks.len(),
{
    if toks.len() > 0 {
        let rest = toks.drop_first();
        let scx = apply_token(x, cur, toks[0]);
        let scy = apply_token(y, cur, toks[0]);
        match toks[0] {
            ReportToken::Monitor { name, active } => {
                lemma_mon_index_congruent(x, y, name);
                lemma_upsert_monitor_wf(x, name, active);
                lemma_upsert_monitor_after(x, name, active);
                lemma_upsert_monitor_after(y, name, active);
                if mon_has(x, name) {
                    lemma_mon_index_of_has(x, name);
                }
                assert(eq_except_desk_state(scx.0, scy.0, m, d));
                lemma_converge_desk(scx.0, scy.0, Some(name), rest, m, d);
            },
            ReportToken::Desktop { name, state } => {
                match cur {
                    Some(mc) => {
                        lemma_mon_index_congruent(x, y, mc);
                        lemma_upsert_desktop_wf(x, mc, name, state);
                        if mc == m && name == d {
                            if mon_has(x, m) {
                                lemma_mon_index_of_has(x, m);
                                let i = mon_index(x, m);
                                let xd = x[i].desktops;
                                let yd = y[i].desktops;
                                lemma_desk_index_congruent(xd, yd, d);
                                if desk_has(xd, d) {
                                    lemma_desk_index_of_has(xd, d);
                                    let di = desk_index(xd, d);
                                    assert(upsert_desktop_in(xd, d, state) =~~= upsert_desktop_in(
                                        yd,
                                        d,
                                        state,
                                    )) by {
                                        assert(wf_desktops(xd));
                                        assert forall|k: int| 0 <= k < xd.len() && k != di
                                            implies xd[k] =~~= yd[k] by {
                                            if k < di {
                                                assert(xd[k].name != xd[di].name);
                                            } else {
                                                assert(xd[di].name != xd[k].name);
                                            }
                                        }
                                    }
                                } else {
                                    assert(xd =~~= yd) by {
                                        assert forall|k: int| 0 <= k < xd.len() implies xd[k] =~~= yd[k]
                                            by {
                                            assert(!(0 <= k < xd.len() && xd[k].name == d));
                                        }
                                    }
                                }
                                assert(scx.0 =~~= scy.0) by {
                                    assert forall|k: int| 0 <= k < x.len() && k != i implies x[k] =~~=
                                        y[k] by {
                                        if k < i {
                                            assert(x[k].name != x[i].name);
                                        } else {
                                            assert(x[i].name != x[k].name);
                                        }
                                    }
                                }
                            } else {
                                assert(x =~~= y) by {
                                    assert forall|k: int| 0 <= k < x.len() implies x[k] =~~= y[k] by {
                                        assert(!(0 <= k < x.len() && x[k].name == m));
                                    }
                                }
                            }
                            assert(apply_tokens(scx.0, scx.1, rest) == apply_tokens(
                                scy.0,
                                scy.1,
                                rest,
                            ));
                        } else {
                            if mon_has(x, mc) {
                                lemma_mon_index_of_has(x, mc);
                                let i = mon_index(x, mc);
                                lemma_upsert_desktop_after(x, mc, name, state);
                                lemma_upsert_desktop_after(y, mc, name, state);
                                let xd = x[i].desktops;
                                let yd = y[i].desktops;
                                lemma_desk_index_congruent(xd, yd, name);
                                lemma_upsert_desktop_in_after(xd, name, state);
                                lemma_upsert_desktop_in_after(yd, name, state);
                                if mc == m {
                                    assert(eq_desks_except(
                                        upsert_desktop_in(xd, name, state),
                                        upsert_desktop_in(yd, name, state),
                                        d,
                                    )) by {
                                        if desk_has(xd, name) {
                                            lemma_desk_index_of_has(xd, name);
                                            lemma_desk_index_of_has(yd, name);
                                        }
                                    }
                                } else {
                                    assert(xd == yd);
                                }
                                assert(eq_except_desk_state(scx.0, scy.0, m, d));
                            }
                            lemma_converge_desk(scx.0, scy.0, cur, rest, m, d);
                        }
                    },
                    None => {
                        lemma_converge_desk(x, y, cur, rest, m, d);
                    },
                }
            },
        }
    }
}

/// Folding a token sequence twice, from the same starting monitor, equals
/// folding it once: the second pass writes what the first already wrote.
pub proof fn lemma_apply_tokens_idempotent(
    ms: Seq<MonitorView>,
    cur: Option<Seq<char>>,
    toks: Seq<ReportToken>,
)
    requires
        wf_monitors(ms),
        match cur {
            Some(m) => mon_has(ms, m),
            None => true,
        },
    ensures
        apply_tokens(apply_tokens(ms, cur, toks), cur, toks) == apply_tokens(ms, cur, toks),
    decreases toks.len(),
{
    if toks.len() > 0 {
        let rest = toks.drop_first();
        let xx = apply_tokens(ms, cur, toks);
        match toks[0] {
            ReportToken::Monitor { name, active } => {
                let s1 = upsert_monitor(ms, name, active);
                lemma_upsert_monitor_wf(ms, name, active);
                lemma_upsert_monitor_after(ms, name, active);
                lemma_apply_tokens_idempotent(s1, Some(name), rest);
                lemma_fold_names_grow(s1, Some(name), rest);
                lemma_mon_index_stable(s1, xx, name);
                if writes_mon(rest, name) {
                    lemma_apply_tokens_wf(s1, Some(name), rest);
                    lemma_mon_index_of_has(xx, name);
                    lemma_upsert_monitor_after(xx, name, active);
                    lemma_upsert_monitor_wf(xx, name, active);
                    assert(eq_except_mon_active(upsert_monitor(xx, name, active), xx, name));
                    lemma_converge_mon(upsert_monitor(xx, name, active), xx, Some(name), rest, name);
                } else {
                    lemma_frame_mon(s1, Some(name), rest, name);
                    lemma_upsert_monitor_absorb(xx, name, active);
                }
            },
            ReportToken::Desktop { name, state } => {
                match cur {
                    Some(m) => {
                        let s1 = upsert_desktop(ms, m, name, state);
                        lemma_upsert_desktop_wf(ms, m, name, state);
                        lemma_upsert_desktop_after(ms, m, name, state);
                        lemma_mon_index_stable(ms, s1, m);
                        lemma_apply_tokens_idempotent(s1, cur, rest);
                        lemma_fold_desk_presence(s1, cur, rest, m, name);
                        if writes_desk(rest, cur, m, name) {
                            lemma_apply_tokens_wf(s1, cur, rest);
                            lemma_mon_index_of_has(xx, m);
                            lemma_upsert_desktop_after(xx, m, name, state);
                            lemma_desk_index_of_has(desks_of(xx, m), name);
                            lemma_upsert_desktop_in_after(desks_of(xx, m), name, state);
                            lemma_upsert_desktop_wf(xx, m, name, state);
                            assert(eq_except_desk_state(
                                upsert_desktop(xx, m, name, state),
                                xx,
                                m,
                                name,
                            ));
                            lemma_converge_desk(
                                upsert_desktop(xx, m, name, state),
                                xx,
                                cur,
                                rest,
                                m,
                                name,
                            );
                        } else {
                            lemma_frame_desk(s1, cur, rest, m, name);
                            lemma_upsert_desktop_absorb(xx, m, name, state);
                        }
                    },
                    None => {
                        lemma_apply_tokens_idempotent(ms, cur, rest);
                    },
                }
            },
        }
    }
}

/// Re-applying a report the model has already absorbed changes nothing:
/// every monitor and desktop the report names exists after the first pass
/// with exactly the named values, so the second pass writes what already
/// stands.
pub proof fn lemma_apply_report_idempotent(ms: Seq<MonitorView>, report: Seq<char>)
    requires
        wf_monitors(ms),
    ensures
        apply_report(apply_report(ms, report), report) == apply_report(ms, report),
{
    lemma_apply_tokens_idempotent(ms, None, spec_tokens(report, 0));
}

} // verus!
