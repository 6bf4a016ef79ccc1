//! Parsing of the platform's scan report (the list of visible networks) and
//! of its interface report (the network currently associated).
//!
//! A report is read line by line. A line whose trimmed text begins with
//! `SSID` opens a new network block; in a block, lines beginning with
//! `Network type`, `Authentication` or `Encryption` set the matching field to
//! the trimmed text after their first colon. Other lines are ignored.
use vstd::prelude::*;
use crate::text::{
    after_colon, chars_of, has_prefix, split_lines, starts_with, trim, trim_bounds,
    value_after_colon,
};

verus! {

/// One network of a scan report.
#[derive(Debug)]
pub struct WifiInfo {
    pub ssid: String,
    pub network_type: String,
    pub authentication: String,
    pub encryption: String,
}

/// The fields of a [`WifiInfo`] as character sequences.
pub struct NetworkView {
    pub ssid: Seq<char>,
    pub network_type: Seq<char>,
    pub authentication: Seq<char>,
    pub encryption: Seq<char>,
}

impl View for WifiInfo {
    type V = NetworkView;

    open spec fn view(&self) -> NetworkView {
        NetworkView {
            ssid: self.ssid@,
            network_type: self.network_type@,
            authentication: self.authentication@,
            encryption: self.encryption@,
        }
    }
}

impl WifiInfo {
    /// A record with every field empty.
    pub fn empty() -> (r: WifiInfo)
        ensures
            r@ == empty_network(),
    {
        WifiInfo {
            ssid: String::new(),
            network_type: String::new(),
            authentication: String::new(),
            encryption: String::new(),
        }
    }
}

impl Default for WifiInfo {
    fn default() -> (r: WifiInfo)
        ensures
            r@ == empty_network(),
    {
        WifiInfo::empty()
    }
}

/// The views of a sequence of records.
pub open spec fn views(v: Seq<WifiInfo>) -> Seq<NetworkView> {
    v.map_values(|w: WifiInfo| w@)
}

pub open spec fn empty_network() -> NetworkView {
    NetworkView {
        ssid: Seq::empty(),
        network_type: Seq::empty(),
        authentication: Seq::empty(),
        encryption: Seq::empty(),
    }
}

pub open spec fn ssid_tag() -> Seq<char> {
    seq!['S', 'S', 'I', 'D']
}

pub open spec fn network_type_tag() -> Seq<char> {
    seq!['N', 'e', 't', 'w', 'o', 'r', 'k', ' ', 't', 'y', 'p', 'e']
}

pub open spec fn authentication_tag() -> Seq<char> {
    seq!['A', 'u', 't', 'h', 'e', 'n', 't', 'i', 'c', 'a', 't', 'i', 'o', 'n']
}

pub open spec fn encryption_tag() -> Seq<char> {
    seq!['E', 'n', 'c', 'r', 'y', 'p', 't', 'i', 'o', 'n']
}

/// Whether `line` opens a network block.
pub open spec fn is_marker(line: Seq<char>) -> bool {
    starts_with(trim(line), ssid_tag())
}

/// The name that a marker line gives: the trimmed text after its first colon,
/// empty when it holds none.
pub open spec fn marker_name(line: Seq<char>) -> Seq<char> {
    match after_colon(trim(line)) {
        Some(v) => v,
        None => Seq::empty(),
    }
}

/// `r` after reading the field line `line`.
pub open spec fn apply_field(r: NetworkView, line: Seq<char>) -> NetworkView {
    let t = trim(line);
    match after_colon(t) {
        None => r,
        Some(v) => if starts_with(t, network_type_tag()) {
            NetworkView { network_type: v, ..r }
        } else if starts_with(t, authentication_tag()) {
            NetworkView { authentication: v, ..r }
        } else if starts_with(t, encryption_tag()) {
            NetworkView { encryption: v, ..r }
        } else {
            r
        },
    }
}

/// Where a scan stands after some lines: the records completed so far and
/// the block being read, if any.
pub struct ScanView {
    pub done: Seq<NetworkView>,
    pub current: Option<NetworkView>,
}

/// The completed records once the current block is closed: a block whose
/// name is empty is dropped.
pub open spec fn close(st: ScanView) -> Seq<NetworkView> {
    match st.current {
        Some(r) => if r.ssid.len() > 0 {
            st.done.push(r)
        } else {
            st.done
        },
        None => st.done,
    }
}

pub open spec fn scan_step(st: ScanView, line: Seq<char>) -> ScanView {
    if is_marker(line) {
        ScanView {
            done: close(st),
            current: Some(NetworkView { ssid: marker_name(line), ..empty_network() }),
        }
    } else {
        match st.current {
            Some(r) => ScanView { done: st.done, current: Some(apply_field(r, line)) },
            None => st,
        }
    }
}

pub open spec fn scan(lines: Seq<Seq<char>>) -> ScanView
    decreases lines.len(),
{
    if lines.len() == 0 {
        ScanView { done: Seq::empty(), current: None }
    } else {
        scan_step(scan(lines.drop_last()), lines.last())
    }
}

/// The networks that a scan report lists, in report order.
pub open spec fn networks_of(text: Seq<char>) -> Seq<NetworkView> {
    close(scan(split_lines(text)))
}

/// The first marker line among `lines`, if any.
pub open spec fn first_marker(lines: Seq<Seq<char>>) -> Option<Seq<char>>
    decreases lines.len(),
{
    if lines.len() == 0 {
        None
    } else {
        match first_marker(lines.drop_last()) {
            Some(l) => Some(l),
            None => if is_marker(lines.last()) {
                Some(lines.last())
            } else {
                None
            },
        }
    }
}

/// The associated network that an interface report names: the value of its
/// first `SSID` line, or `None` when there is no such line or its value is
/// empty.
pub open spec fn connected_ssid_of(text: Seq<char>) -> Option<Seq<char>> {
    connected_of_lines(split_lines(text))
}

/// The associated network that the lines of an interface report name.
pub open spec fn connected_of_lines(lines: Seq<Seq<char>>) -> Option<Seq<char>> {
    match first_marker(lines) {
        Some(l) => if marker_name(l).len() > 0 {
            Some(marker_name(l))
        } else {
            None
        },
        None => None,
    }
}

/// The non-empty names of the marker lines among `lines`, in order.
pub open spec fn named_markers(lines: Seq<Seq<char>>) -> Seq<Seq<char>>
    decreases lines.len(),
{
    if lines.len() == 0 {
        Seq::empty()
    } else {
        let prev = named_markers(lines.drop_last());
        let l = lines.last();
        if is_marker(l) && marker_name(l).len() > 0 {
            prev.push(marker_name(l))
        } else {
            prev
        }
    }
}

/// The names of a sequence of records.
pub open spec fn ssids(records: Seq<NetworkView>) -> Seq<Seq<char>> {
    records.map_values(|r: NetworkView| r.ssid)
}

proof fn lemma_ssids_push(records: Seq<NetworkView>, r: NetworkView)
    ensures
        ssids(records.push(r)) == ssids(records).push(r.ssid),
{
    assert(ssids(records.push(r)) =~= ssids(records).push(r.ssid));
}

proof fn lemma_scan_names(lines: Seq<Seq<char>>)
    ensures
        ssids(close(scan(lines))) == named_markers(lines),
    decreases lines.len(),
{
    if lines.len() > 0 {
        let prev = lines.drop_last();
        let st = scan(prev);
        let l = lines.last();
        lemma_scan_names(prev);
        if is_marker(l) {
            let r = NetworkView { ssid: marker_name(l), ..empty_network() };
            if r.ssid.len() > 0 {
                lemma_ssids_push(close(st), r);
            }
        } else {
            match st.current {
                Some(r) => {
                    if r.ssid.len() > 0 {
                        lemma_ssids_push(st.done, r);
                        lemma_ssids_push(st.done, apply_field(r, l));
                    }
                },
                None => {},
            }
        }
    }
}

/// A scan report yields one record for each marker line with a non-empty
/// name, in the order of the report: the names of the parsed records are
/// exactly the non-empty marker names.
pub proof fn lemma_one_record_per_named_marker(text: Seq<char>)
    ensures
        ssids(networks_of(text)) == named_markers(split_lines(text)),
{
    lemma_scan_names(split_lines(text));
}

proof fn lemma_no_marker(lines: Seq<Seq<char>>)
    requires
        forall|k: int| 0 <= k < lines.len() ==> !is_marker(#[trigger] lines[k]),
    ensures
        first_marker(lines) is None,
    decreases lines.len(),
{
    if lines.len() > 0 {
        assert(!is_marker(lines[lines.len() - 1]));
        lemma_no_marker(lines.drop_last());
    }
}

/// Only the first marker line of an interface report counts: lines before it
/// are ignored, and its value decides the result, `None` when it is empty.
pub proof fn lemma_connected_from_first_marker(
    pre: Seq<Seq<char>>,
    marker: Seq<char>,
    rest: Seq<Seq<char>>,
)
    requires
        forall|k: int| 0 <= k < pre.len() ==> !is_marker(#[trigger] pre[k]),
        is_marker(marker),
    ensures
        connected_of_lines(pre + seq![marker] + rest) == (if marker_name(marker).len() > 0 {
            Some(marker_name(marker))
        } else {
            None::<Seq<char>>
        }),
{
    let head = pre.push(marker);
    assert(pre + seq![marker] == head);
    assert(head.drop_last() == pre);
    assert(head.last() == marker);
    lemma_no_marker(pre);
    lemma_first_marker_prefix(head, rest, marker);
}

proof fn lemma_first_marker_prefix(head: Seq<Seq<char>>, rest: Seq<Seq<char>>, m: Seq<char>)
    requires
        first_marker(head) == Some(m),
    ensures
        first_marker(head + rest) == Some(m),
    decreases rest.len(),
{
    if rest.len() == 0 {
        assert(head + rest == head);
    } else {
        assert((head + rest).drop_last() == head + rest.drop_last());
        lemma_first_marker_prefix(head, rest.drop_last(), m);
    }
}

struct ScanState {
    done: Vec<WifiInfo>,
    current: Option<WifiInfo>,
}

impl ScanState {
    spec fn view(&self) -> ScanView {
        ScanView {
            done: views(self.done@),
            current: match self.current {
                Some(r) => Some(r@),
                None => None,
            },
        }
    }
}

fn tag_ssid() -> (r: Vec<char>)
    ensures
        r@ == ssid_tag(),
{
    let r = vec!['S', 'S', 'I', 'D'];
    assert(r@ == ssid_tag());
    r
}

/// Whether `v[lo..hi]` is a marker line.
fn line_is_marker(v: &Vec<char>, lo: usize, hi: usize) -> (r: bool)
    requires
        lo <= hi <= v.len(),
    ensures
        r == is_marker(v@.subrange(lo as int, hi as int)),
{
    let (a, b) = trim_bounds(v, lo, hi);
    has_prefix(v, a, b, &tag_ssid())
}

/// The name of the marker line `v[lo..hi]`.
fn line_marker_name(v: &Vec<char>, lo: usize, hi: usize) -> (r: String)
    requires
        lo <= hi <= v.len(),
    ensures
        r@ == marker_name(v@.subrange(lo as int, hi as int)),
{
    let (a, b) = trim_bounds(v, lo, hi);
    match value_after_colon(v, a, b) {
        Some(s) => s,
        None => String::new(),
    }
}

/// `r` after reading the field line `v[lo..hi]`.
fn line_apply_field(r: WifiInfo, v: &Vec<char>, lo: usize, hi: usize) -> (out: WifiInfo)
    requires
        lo <= hi <= v.len(),
    ensures
        out@ == apply_field(r@, v@.subrange(lo as int, hi as int)),
{
    let (a, b) = trim_bounds(v, lo, hi);
    let mut r = r;
    match value_after_colon(v, a, b) {
        None => {},
        Some(x) => {
            let nt = vec!['N', 'e', 't', 'w', 'o', 'r', 'k', ' ', 't', 'y', 'p', 'e'];
            let au = vec!['A', 'u', 't', 'h', 'e', 'n', 't', 'i', 'c', 'a', 't', 'i', 'o', 'n'];
            let en = vec!['E', 'n', 'c', 'r', 'y', 'p', 't', 'i', 'o', 'n'];
            assert(nt@ == network_type_tag());
            assert(au@ == authentication_tag());
            assert(en@ == encryption_tag());
            if has_prefix(v, a, b, &nt) {
                r.network_type = x;
            } else if has_prefix(v, a, b, &au) {
                r.authentication = x;
            } else if has_prefix(v, a, b, &en) {
                r.encryption = x;
            }
        },
    }
    r
}

fn close_state(st: ScanState) -> (r: Vec<WifiInfo>)
    ensures
        views(r@) == close(st.view()),
{
    let mut done = st.done;
    match st.current {
        Some(w) => {
            if w.ssid.unicode_len() > 0 {
                done.push(w);
            }
        },
        None => {},
    }
    assert(views(done@) == close(st.view()));
    done
}

fn scan_line(st: ScanState, v: &Vec<char>, lo: usize, hi: usize) -> (r: ScanState)
    requires
        lo <= hi <= v.len(),
    ensures
        r.view() == scan_step(st.view(), v@.subrange(lo as int, hi as int)),
{
    if line_is_marker(v, lo, hi) {
        let done = close_state(st);
        let mut w = WifiInfo::empty();
        w.ssid = line_marker_name(v, lo, hi);
        ScanState { done, current: Some(w) }
    } else {
        match st.current {
            Some(w) => ScanState { done: st.done, current: Some(line_apply_field(w, v, lo, hi)) },
            None => st,
        }
    }
}

proof fn lemma_split_lines_step(s: Seq<char>, i: int, start: int, lines: Seq<Seq<char>>)
    requires
        0 <= start <= i < s.len(),
        split_lines(s.take(i)) == lines.push(s.subrange(start, i)),
    ensures
        s[i] == '\n' ==> split_lines(s.take(i + 1)) == lines.push(s.subrange(start, i)).push(
            s.subrange(i + 1, i + 1),
        ),
        s[i] != '\n' ==> split_lines(s.take(i + 1)) == lines.push(s.subrange(start, i + 1)),
{
    assert(s.take(i + 1).drop_last() == s.take(i));
    assert(s.take(i + 1).last() == s[i]);
    assert(s.subrange(i + 1, i + 1) == Seq::<char>::empty());
    if s[i] != '\n' {
        assert(s.subrange(start, i + 1) == s.subrange(start, i).push(s[i]));
        assert(lines.push(s.subrange(start, i)).update(lines.len() as int, s.subrange(start, i + 1))
            == lines.push(s.subrange(start, i + 1)));
    }
}

/// The networks that the scan report `text` lists, in report order; a block
/// whose name is empty is left out.
pub fn parse_networks(text: &str) -> (r: Vec<WifiInfo>)
    ensures
        views(r@) == networks_of(text@),
{
    let v = chars_of(text);
    let n = v.len();
    let mut st = ScanState { done: Vec::new(), current: None };
    let ghost mut lines: Seq<Seq<char>> = Seq::empty();
    let mut start: usize = 0;
    let mut i: usize = 0;
    proof {
        assert(v@.take(0) == Seq::<char>::empty());
        assert(views(st.done@) == Seq::<NetworkView>::empty());
        assert(split_lines(v@.take(0)) == lines.push(v@.subrange(0, 0)));
    }
    while i < n
        invariant
            n == v.len(),
            v@ == text@,
            start <= i <= n,
            split_lines(v@.take(i as int)) == lines.push(v@.subrange(start as int, i as int)),
            st.view() == scan(lines),
        decreases n - i,
    {
        proof {
            lemma_split_lines_step(v@, i as int, start as int, lines);
        }
        if v[i] == '\n' {
            st = scan_line(st, &v, start, i);
            proof {
                let l = v@.subrange(start as int, i as int);
                assert(lines.push(l).drop_last() == lines);
                lines = lines.push(l);
            }
            start = i + 1;
        }
        i = i + 1;
    }
    st = scan_line(st, &v, start, n);
    proof {
        let l = v@.subrange(start as int, n as int);
        assert(lines.push(l).drop_last() == lines);
        assert(v@.take(n as int) == v@);
    }
    close_state(st)
}

/// The associated network that the interface report `text` names.
pub fn parse_connected_ssid(text: &str) -> (r: Option<String>)
    ensures
        r matches Some(s) ==> connected_ssid_of(text@) == Some(s@),
        r is None ==> connected_ssid_of(text@) is None,
{
    let v = chars_of(text);
    let n = v.len();
    let mut found: Option<(usize, usize)> = None;
    let ghost mut lines: Seq<Seq<char>> = Seq::empty();
    let mut start: usize = 0;
    let mut i: usize = 0;
    proof {
        assert(v@.take(0) == Seq::<char>::empty());
        assert(split_lines(v@.take(0)) == lines.push(v@.subrange(0, 0)));
    }
    while i < n
        invariant
            n == v.len(),
            v@ == text@,
            start <= i <= n,
            split_lines(v@.take(i as int)) == lines.push(v@.subrange(start as int, i as int)),
            match found {
                Some((a, b)) => a <= b <= n && first_marker(lines) == Some(
                    v@.subrange(a as int, b as int),
                ),
                None => first_marker(lines) is None,
            },
        decreases n - i,
    {
        proof {
            lemma_split_lines_step(v@, i as int, start as int, lines);
        }
        if v[i] == '\n' {
            if found.is_none() && line_is_marker(&v, start, i) {
                found = Some((start, i));
            }
            proof {
                let l = v@.subrange(start as int, i as int);
                assert(lines.push(l).drop_last() == lines);
                lines = lines.push(l);
            }
            start = i + 1;
        }
        i = i + 1;
    }
    if found.is_none() && line_is_marker(&v, start, n) {
        found = Some((start, n));
    }
    proof {
        let l = v@.subrange(start as int, n as int);
        assert(lines.push(l).drop_last() == lines);
        assert(v@.take(n as int) == v@);
    }
    match found {
        None => None,
        Some((a, b)) => {
            let name = line_marker_name(&v, a, b);
            if name.unicode_len() > 0 {
                Some(name)
            } else {
                None
            }
        },
    }
}

} // verus!
