//! Reading `pactl` listings to find the sink an application plays to and the
//! monitor source of a sink, and escaping values for GStreamer pipelines.

use vstd::prelude::*;
use crate::text::{
    trim_ws, has_prefix, ascii_lower, contains_sub, trim_char, text_lines, string_views, push_char,
};
use crate::security::parse_unsigned;

verus! {

/// The trimmed text after `key` on a trimmed line that starts with it, when
/// not blank.
pub open spec fn value_after(line: Seq<char>, key: Seq<char>) -> Option<Seq<char>> {
    let t = trim_ws(line);
    if has_prefix(t, key) && trim_ws(t.subrange(key.len() as int, t.len() as int)).len() > 0 {
        Some(trim_ws(t.subrange(key.len() as int, t.len() as int)))
    } else {
        None
    }
}

/// The number after `prefix` on a trimmed line that starts with it.
pub open spec fn block_index(line: Seq<char>, prefix: Seq<char>) -> Option<int> {
    let t = trim_ws(line);
    if has_prefix(t, prefix) {
        parse_unsigned(trim_ws(t.subrange(prefix.len() as int, t.len() as int)), u32::MAX as int)
    } else {
        None
    }
}

/// The position of the first `=` in `t`.
pub open spec fn first_eq_sign(t: Seq<char>) -> int {
    choose|p: int| 0 <= p < t.len() && t[p] == '=' && forall|q: int| 0 <= q < p ==> t[q] != '='
}

/// The value of a `key = "value"` property line: the trimmed text after the
/// first `=`, without surrounding quotes, when not blank.
pub open spec fn property_value(line: Seq<char>) -> Option<Seq<char>> {
    let t = trim_ws(line);
    if t.contains('=') {
        let rhs = trim_ws(t.subrange(first_eq_sign(t) + 1, t.len() as int));
        if rhs.len() > 0 {
            Some(trim_char(rhs, '"'))
        } else {
            None
        }
    } else {
        None
    }
}

/// The trimmed rest of `line` after `key`, if it starts with it and the rest
/// is not blank.
pub fn line_value_after_colon(line: &str, key: &str) -> (r: Option<String>)
    ensures
        match r {
            Some(v) => value_after(line@, key@) == Some(v@),
            None => value_after(line@, key@) is None,
        },
{
    let trimmed = crate::text::trim(line);
    match crate::text::strip_prefix(trimmed.as_str(), key) {
        None => None,
        Some(rest) => {
            let value = crate::text::trim(rest.as_str());
            if value.as_str().is_empty() {
                None
            } else {
                Some(value)
            }
        },
    }
}

/// The number after `prefix` on `line`, if it starts with it.
pub fn parse_block_index(line: &str, prefix: &str) -> (r: Option<u32>)
    ensures
        match r {
            Some(n) => block_index(line@, prefix@) == Some(n as int),
            None => block_index(line@, prefix@) is None,
        },
{
    let trimmed = crate::text::trim(line);
    match crate::text::strip_prefix(trimmed.as_str(), prefix) {
        None => None,
        Some(rest) => {
            let value = crate::text::trim(rest.as_str());
            match crate::security::parse_unsigned_setting(value.as_str(), u32::MAX as u64) {
                Some(n) => Some(n as u32),
                None => None,
            }
        },
    }
}

/// The unquoted value of a property line, if it has a non-blank one.
pub fn parse_app_property_value(line: &str) -> (r: Option<String>)
    ensures
        match r {
            Some(v) => property_value(line@) == Some(v@),
            None => property_value(line@) is None,
        },
{
    let trimmed = crate::text::trim(line);
    let v = crate::text::chars_of(trimmed.as_str());
    let n = v.len();
    let mut p: usize = 0;
    while p < n && v[p] != '='
        invariant
            p <= n == v.len(),
            forall|q: int| 0 <= q < p ==> v@[q] != '=',
        decreases n - p,
    {
        p = p + 1;
    }
    if p == n {
        proof {
            assert(!trimmed@.contains('=')) by {
                if trimmed@.contains('=') {
                    let q = choose|q: int| 0 <= q < trimmed@.len() && trimmed@[q] == '=';
                    assert(v@[q] != '=');
                }
            }
        }
        return None;
    }
    proof {
        assert(trimmed@.contains('='));
        let f = first_eq_sign(trimmed@);
        assert(0 <= f < n && v@[f] == '=' && forall|q: int| 0 <= q < f ==> v@[q] != '=');
        assert(f == p) by {
            if f < p {
                assert(v@[f] != '=');
            } else if f > p {
                assert(v@[p as int] != '=');
            }
        }
    }
    let rest = crate::text::string_from_chars(&v, p + 1, n);
    let rhs = crate::text::trim(rest.as_str());
    if rhs.as_str().is_empty() {
        return None;
    }
    Some(crate::text::trim_matches_char(rhs.as_str(), '"'))
}

/// What has been learnt from the lines of a sink-input listing read so far.
pub ghost struct SinkScan {
    /// The sink of the current sink input, once its `Sink:` line was read.
    pub current: Option<int>,
    /// Whether a property of the current sink input names the application.
    pub matches: bool,
    /// The sink found for the application, which ends the search.
    pub found: Option<int>,
}

/// Whether a trimmed line is one of the properties that name an application.
pub open spec fn names_application(t: Seq<char>) -> bool {
    has_prefix(t, "application.name"@) || has_prefix(t, "application.process.binary"@) || has_prefix(
        t,
        "application.process.id"@,
    ) || has_prefix(t, "media.name"@)
}

/// The scan after reading one more line, looking for `target`.
pub open spec fn sink_scan_step(st: SinkScan, line: Seq<char>, target: Seq<char>) -> SinkScan {
    if st.found is Some {
        st
    } else if block_index(line, "Sink Input #"@) is Some {
        if st.matches && st.current is Some {
            SinkScan { found: st.current, ..st }
        } else {
            SinkScan { current: None, matches: false, found: None }
        }
    } else if value_after(line, "Sink:"@) is Some && parse_unsigned(
        value_after(line, "Sink:"@)->0,
        u32::MAX as int,
    ) is Some {
        SinkScan { current: parse_unsigned(value_after(line, "Sink:"@)->0, u32::MAX as int), ..st }
    } else if names_application(trim_ws(line)) && property_value(line) is Some && contains_sub(
        ascii_lower(property_value(line)->0),
        target,
    ) {
        SinkScan { matches: true, ..st }
    } else {
        st
    }
}

/// The scan after reading `lines`.
pub open spec fn sink_scan(lines: Seq<Seq<char>>, target: Seq<char>) -> SinkScan
    decreases lines.len(),
{
    if lines.len() == 0 {
        SinkScan { current: None, matches: false, found: None }
    } else {
        sink_scan_step(sink_scan(lines.drop_last(), target), lines.last(), target)
    }
}

/// The sink that the first sink input naming `target` plays to, in a
/// `pactl list sink-inputs` listing.
pub open spec fn sink_for_application(listing: Seq<char>, target: Seq<char>) -> Option<int> {
    let st = sink_scan(text_lines(listing), target);
    if st.found is Some {
        st.found
    } else if st.matches && st.current is Some {
        st.current
    } else {
        None
    }
}

proof fn lemma_sink_found_stays(lines: Seq<Seq<char>>, target: Seq<char>, i: int, k: int)
    requires
        0 <= i <= k <= lines.len(),
        sink_scan(lines.take(i), target).found is Some,
    ensures
        sink_scan(lines.take(k), target) == sink_scan(lines.take(i), target),
    decreases k - i,
{
    if k > i {
        lemma_sink_found_stays(lines, target, i, k - 1);
        assert(lines.take(k).drop_last() =~= lines.take(k - 1));
    }
}

/// The sink that the first sink input whose application properties contain
/// `target` (already in lower case) plays to, in a `pactl list sink-inputs`
/// listing.
pub fn find_sink_index_for_application_from_sink_inputs(sink_inputs: &str, target: &str) -> (r:
    Option<u32>)
    ensures
        match r {
            Some(n) => sink_for_application(sink_inputs@, target@) == Some(n as int),
            None => sink_for_application(sink_inputs@, target@) is None,
        },
{
    let lines = crate::text::lines_of(sink_inputs);
    let ghost ls = text_lines(sink_inputs@);
    let mut current: Option<u32> = None;
    let mut matches = false;
    let mut i: usize = 0;
    proof {
        assert(ls.take(0) =~= Seq::<Seq<char>>::empty());
    }
    while i < lines.len()
        invariant
            i <= lines@.len(),
            string_views(lines@) == ls,
            ls == text_lines(sink_inputs@),
            ({
                let st = sink_scan(ls.take(i as int), target@);
                &&& st.found is None
                &&& st.matches == matches
                &&& st.current == match current {
                    Some(c) => Some(c as int),
                    None => None::<int>,
                }
            }),
        decreases lines@.len() - i,
    {
        let line = lines[i].as_str();
        proof {
            assert(ls.take(i + 1).drop_last() =~= ls.take(i as int));
            assert(ls.take(i + 1).last() == line@);
        }
        if parse_block_index(line, "Sink Input #").is_some() {
            if matches && current.is_some() {
                proof {
                    lemma_sink_found_stays(ls, target@, i + 1, ls.len() as int);
                    assert(ls.take(ls.len() as int) =~= ls);
                }
                return current;
            }
            current = None;
            matches = false;
        } else {
            let mut handled = false;
            if let Some(v) = line_value_after_colon(line, "Sink:") {
                if let Some(id) = crate::security::parse_unsigned_setting(v.as_str(), u32::MAX as u64) {
                    current = Some(id as u32);
                    handled = true;
                }
            }
            if !handled {
                let trimmed = crate::text::trim(line);
                let t = trimmed.as_str();
                let names = crate::text::strip_prefix(t, "application.name").is_some()
                    || crate::text::strip_prefix(t, "application.process.binary").is_some()
                    || crate::text::strip_prefix(t, "application.process.id").is_some()
                    || crate::text::strip_prefix(t, "media.name").is_some();
                if names {
                    if let Some(value) = parse_app_property_value(line) {
                        let lower = crate::text::to_ascii_lower(value.as_str());
                        if crate::text::contains_str(lower.as_str(), target) {
                            matches = true;
                        }
                    }
                }
            }
        }
        i = i + 1;
    }
    proof {
        assert(ls.take(ls.len() as int) =~= ls);
    }
    if matches && current.is_some() {
        current
    } else {
        None
    }
}

/// What has been learnt from the lines of a sink listing read so far.
pub ghost struct MonitorScan {
    /// Whether the lines read belong to the wanted sink's block.
    pub in_target: bool,
    /// The monitor source found, which ends the search.
    pub found: Option<Seq<char>>,
}

/// The scan after reading one more line, looking for sink `sink_id`.
pub open spec fn monitor_scan_step(st: MonitorScan, line: Seq<char>, sink_id: int) -> MonitorScan {
    if st.found is Some {
        st
    } else if block_index(line, "Sink #"@) is Some {
        MonitorScan { in_target: block_index(line, "Sink #"@)->0 == sink_id, ..st }
    } else if !st.in_target {
        st
    } else if value_after(line, "Monitor Source:"@) is Some {
        MonitorScan { found: value_after(line, "Monitor Source:"@), ..st }
    } else {
        st
    }
}

/// The scan after reading `lines`.
pub open spec fn monitor_scan(lines: Seq<Seq<char>>, sink_id: int) -> MonitorScan
    decreases lines.len(),
{
    if lines.len() == 0 {
        MonitorScan { in_target: false, found: None }
    } else {
        monitor_scan_step(monitor_scan(lines.drop_last(), sink_id), lines.last(), sink_id)
    }
}

proof fn lemma_monitor_found_stays(lines: Seq<Seq<char>>, sink_id: int, i: int, k: int)
    requires
        0 <= i <= k <= lines.len(),
        monitor_scan(lines.take(i), sink_id).found is Some,
    ensures
        monitor_scan(lines.take(k), sink_id) == monitor_scan(lines.take(i), sink_id),
    decreases k - i,
{
    if k > i {
        lemma_monitor_found_stays(lines, sink_id, i, k - 1);
        assert(lines.take(k).drop_last() =~= lines.take(k - 1));
    }
}

/// The monitor source of sink `sink_id` in a `pactl list sinks` listing.
pub fn find_monitor_source_for_sink_from_sinks(sinks: &str, sink_id: u32) -> (r: Option<String>)
    ensures
        match r {
            Some(s) => monitor_scan(text_lines(sinks@), sink_id as int).found == Some(s@),
            None => monitor_scan(text_lines(sinks@), sink_id as int).found is None,
        },
{
    let lines = crate::text::lines_of(sinks);
    let ghost ls = text_lines(sinks@);
    let mut in_target = false;
    let mut i: usize = 0;
    proof {
        assert(ls.take(0) =~= Seq::<Seq<char>>::empty());
    }
    while i < lines.len()
        invariant
            i <= lines@.len(),
            string_views(lines@) == ls,
            ls == text_lines(sinks@),
            monitor_scan(ls.take(i as int), sink_id as int) == (MonitorScan {
                in_target,
                found: None,
            }),
        decreases lines@.len() - i,
    {
        let line = lines[i].as_str();
        proof {
            assert(ls.take(i + 1).drop_last() =~= ls.take(i as int));
            assert(ls.take(i + 1).last() == line@);
        }
        if let Some(idx) = parse_block_index(line, "Sink #") {
            in_target = idx == sink_id;
        } else if in_target {
            if let Some(source) = line_value_after_colon(line, "Monitor Source:") {
                proof {
                    lemma_monitor_found_stays(ls, sink_id as int, i + 1, ls.len() as int);
                    assert(ls.take(ls.len() as int) =~= ls);
                }
                return Some(source);
            }
        }
        i = i + 1;
    }
    proof {
        assert(ls.take(ls.len() as int) =~= ls);
    }
    None
}

/// The escaped form of one character inside a quoted GStreamer property.
pub open spec fn gst_escape_char(c: char) -> Seq<char> {
    if c == '\\' {
        seq!['\\', '\\']
    } else if c == '"' {
        seq!['\\', '"']
    } else {
        seq![c]
    }
}

/// `s` with backslashes and double quotes escaped by a backslash.
pub open spec fn gst_escaped(s: Seq<char>) -> Seq<char>
    decreases s.len(),
{
    if s.len() == 0 {
        Seq::empty()
    } else {
        gst_escaped(s.drop_last()) + gst_escape_char(s.last())
    }
}

/// `input` escaped for use inside a double-quoted GStreamer property value.
pub fn gst_escape_property_value(input: &str) -> (r: String)
    ensures
        r@ == gst_escaped(input@),
{
    let mut r = String::new();
    for c in it: input.chars()
        invariant
            it.seq() == input@,
            r@ == gst_escaped(input@.take(it.index() as int)),
    {
        proof {
            let t = input@.take(it.index() + 1);
            assert(t.drop_last() =~= input@.take(it.index() as int));
            assert(t.last() == c);
        }
        let ghost before = r@;
        if c == '\\' {
            push_char(&mut r, '\\');
            push_char(&mut r, '\\');
        } else if c == '"' {
            push_char(&mut r, '\\');
            push_char(&mut r, '"');
        } else {
            push_char(&mut r, c);
        }
        proof {
            assert(r@ =~= before + gst_escape_char(c));
        }
    }
    proof {
        assert(input@.take(input@.len() as int) =~= input@);
    }
    r
}

} // verus!
