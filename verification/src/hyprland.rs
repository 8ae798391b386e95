//! Reading the JSON that `hyprctl -j workspaces` and `hyprctl -j activeworkspace` print.
//! The reader is deliberately small: it looks for `"id"` keys, reads the number after
//! them, and scans to the end of the enclosing object to see whether it is urgent.
use vstd::prelude::*;

use crate::text::{
    byte_len, byte_len_of_prefix, chars_of, contains, contains_chars, find, find_chars,
    is_ascii_digit, lemma_byte_len_at_least_len, lemma_find_bounds, parse_i32, parse_i32_chars, slice_chars, str_byte_len_fits,
    trim_start, trim_start_chars, utf8_width,
};

verus! {

broadcast use vstd::string::group_string_axioms;

/// One Hyprland workspace as the bar shows it.
#[derive(Clone, Copy, Debug, PartialEq, Eq, Structural)]
pub struct WorkspaceInfo {
    pub id: i32,
    pub active: bool,
    pub urgent: bool,
}

// ------------------------------------------------------------
// End of a JSON object
// ------------------------------------------------------------

/// The scan that finds where the object around position `i` closes. Outside strings,
/// `{` opens a level and `}` closes one; the scan stops at a `}` that closes the level it
/// started in or the first level opened after it. Inside strings, a backslash escapes
/// the next character. Without such a `}`, the end is the length of `s`.
pub open spec fn object_end_from(
    s: Seq<char>,
    i: int,
    depth: nat,
    in_string: bool,
    escaped: bool,
) -> int
    decreases s.len() - i,
{
    if i < 0 || i >= s.len() {
        s.len() as int
    } else {
        let ch = s[i];
        if in_string {
            if escaped {
                object_end_from(s, i + 1, depth, true, false)
            } else if ch == '\\' {
                object_end_from(s, i + 1, depth, true, true)
            } else if ch == '"' {
                object_end_from(s, i + 1, depth, false, false)
            } else {
                object_end_from(s, i + 1, depth, true, false)
            }
        } else if ch == '"' {
            object_end_from(s, i + 1, depth, true, escaped)
        } else if ch == '{' {
            object_end_from(s, i + 1, depth + 1, false, escaped)
        } else if ch == '}' {
            if depth <= 1 {
                i
            } else {
                object_end_from(s, i + 1, (depth - 1) as nat, false, escaped)
            }
        } else {
            object_end_from(s, i + 1, depth, false, escaped)
        }
    }
}

/// The position (in characters) of the `}` that ends the object `s` starts inside, or
/// the length of `s` when there is none.
pub open spec fn object_end(s: Seq<char>) -> int {
    object_end_from(s, 0, 0, false, false)
}

pub proof fn lemma_object_end_from_bounds(
    s: Seq<char>,
    i: int,
    depth: nat,
    in_string: bool,
    escaped: bool,
)
    requires
        0 <= i,
    ensures
        i <= object_end_from(s, i, depth, in_string, escaped) <= s.len() || (i >= s.len()
            && object_end_from(s, i, depth, in_string, escaped) == s.len()),
    decreases s.len() - i,
{
    if i < s.len() {
        let ch = s[i];
        if in_string {
            if escaped {
                lemma_object_end_from_bounds(s, i + 1, depth, true, false);
            } else if ch == '\\' {
                lemma_object_end_from_bounds(s, i + 1, depth, true, true);
            } else if ch == '"' {
                lemma_object_end_from_bounds(s, i + 1, depth, false, false);
            } else {
                lemma_object_end_from_bounds(s, i + 1, depth, true, false);
            }
        } else if ch == '"' {
            lemma_object_end_from_bounds(s, i + 1, depth, true, escaped);
        } else if ch == '{' {
            lemma_object_end_from_bounds(s, i + 1, depth + 1, false, escaped);
        } else if ch == '}' {
            if depth > 1 {
                lemma_object_end_from_bounds(s, i + 1, (depth - 1) as nat, false, escaped);
            }
        } else {
            lemma_object_end_from_bounds(s, i + 1, depth, false, escaped);
        }
    }
}

/// The end of the object, as a position in characters.
pub proof fn lemma_object_end_bounds(s: Seq<char>)
    ensures
        0 <= object_end(s) <= s.len(),
{
    lemma_object_end_from_bounds(s, 0, 0, false, false);
}

/// `object_end` computed over characters.
pub fn object_end_chars(s: &[char]) -> (r: usize)
    ensures
        r == object_end(s@),
{
    let mut depth: usize = 0;
    let mut in_string = false;
    let mut escaped = false;
    let mut i: usize = 0;
    while i < s.len()
        invariant
            i <= s@.len(),
            depth <= i,
            object_end(s@) == object_end_from(s@, i as int, depth as nat, in_string, escaped),
        decreases s.len() - i,
    {
        let ch = s[i];
        if in_string {
            if escaped {
                escaped = false;
            } else if ch == '\\' {
                escaped = true;
            } else if ch == '"' {
                in_string = false;
            }
        } else if ch == '"' {
            in_string = true;
        } else if ch == '{' {
            depth = depth + 1;
        } else if ch == '}' {
            if depth <= 1 {
                return i;
            }
            depth = depth - 1;
        }
        i = i + 1;
    }
    s.len()
}

/// Where the object that `text` starts inside ends: the byte position of its closing
/// `}`, or the length of `text` in bytes when it does not close.
pub fn find_json_object_end(text: &str) -> (r: usize)
    ensures
        r == byte_len(text@.take(object_end(text@))),
{
    let v = chars_of(text);
    let end = object_end_chars(v.as_slice());
    str_byte_len_fits(text);
    proof {
        lemma_object_end_bounds(v@);
    }
    byte_len_of_prefix(v.as_slice(), end)
}


// ------------------------------------------------------------
// Numbers after a key
// ------------------------------------------------------------

/// The length of the longest prefix of `s` made of ASCII digits and `-`.
pub open spec fn number_run(s: Seq<char>) -> nat
    decreases s.len(),
{
    if s.len() > 0 && (is_ascii_digit(s[0]) || s[0] == '-') {
        1 + number_run(s.drop_first())
    } else {
        0
    }
}

/// The number written after position `colon` of `s`: leading white space is skipped,
/// the run of digits and `-` that follows is read as an `i32`.
pub open spec fn number_after(s: Seq<char>, colon: int) -> Option<int> {
    let value = trim_start(s.skip(colon + 1));
    parse_i32(value.take(number_run(value) as int))
}

pub fn number_run_len(s: &[char]) -> (n: usize)
    ensures
        n == number_run(s@),
        n <= s@.len(),
{
    let mut n: usize = 0;
    assert(s@.skip(0) =~= s@);
    while n < s.len() && (('0' <= s[n] && s[n] <= '9') || s[n] == '-')
        invariant
            n <= s@.len(),
            number_run(s@) == n + number_run(s@.skip(n as int)),
        decreases s.len() - n,
    {
        assert(s@.skip(n as int).drop_first() =~= s@.skip(n + 1));
        n = n + 1;
    }
    n
}

/// `number_after(s, colon)` computed.
pub fn read_number_after(s: &[char], colon: usize) -> (r: Option<i32>)
    requires
        colon < s.len(),
    ensures
        match r {
            Some(v) => number_after(s@, colon as int) == Some(v as int),
            None => number_after(s@, colon as int) is None,
        },
{
    let tail = slice_chars(s, colon + 1, s.len());
    assert(tail@ =~= s@.skip(colon + 1));
    let value = trim_start_chars(tail.as_slice());
    let n = number_run_len(value.as_slice());
    let number = slice_chars(value.as_slice(), 0, n);
    assert(number@ =~= value@.take(n as int));
    parse_i32_chars(number.as_slice())
}

/// The number after the first `"key"` of `text`, as `extract_json_number` reads it.
pub open spec fn json_number(text: Seq<char>, key: Seq<char>) -> Option<int> {
    let needle = seq!['"'] + key + seq!['"'];
    match find(text, needle) {
        None => None,
        Some(position) => {
            let rest = text.skip(position + needle.len());
            match find(rest, seq![':']) {
                None => None,
                Some(colon) => number_after(rest, colon),
            }
        },
    }
}

/// The number written after the first `"key"` of `text` and the `:` that follows it,
/// if there is one and it is an `i32`.
pub fn extract_json_number(text: &str, key: &str) -> (r: Option<i32>)
    ensures
        match r {
            Some(v) => json_number(text@, key@) == Some(v as int),
            None => json_number(text@, key@) is None,
        },
{
    let t = chars_of(text);
    let k = chars_of(key);
    let mut needle: Vec<char> = Vec::new();
    needle.push('"');
    let mut i: usize = 0;
    while i < k.len()
        invariant
            i <= k@.len(),
            needle@ == seq!['"'] + k@.take(i as int),
        decreases k.len() - i,
    {
        needle.push(k[i]);
        assert(seq!['"'] + k@.take(i as int).push(k@[i as int]) =~= seq!['"'] + k@.take(i + 1));
        i = i + 1;
    }
    needle.push('"');
    assert(k@.take(k@.len() as int) =~= k@);
    assert(needle@ =~= seq!['"'] + key@ + seq!['"']);
    let position = match find_chars(t.as_slice(), needle.as_slice()) {
        Some(p) => p,
        None => return None,
    };
    proof {
        lemma_find_bounds(t@, needle@);
    }
    assert(position + needle.len() <= t.len());
    let rest = slice_chars(t.as_slice(), position + needle.len(), t.len());
    assert(rest@ =~= t@.skip(position + needle@.len()));
    let colon_pattern = vec![':'];
    assert(colon_pattern@ =~= seq![':']);
    let colon = match find_chars(rest.as_slice(), colon_pattern.as_slice()) {
        Some(c) => c,
        None => return None,
    };
    proof {
        lemma_find_bounds(rest@, seq![':']);
    }
    read_number_after(rest.as_slice(), colon)
}


// ------------------------------------------------------------
// The workspace list
// ------------------------------------------------------------

/// The key that introduces a workspace id.
pub open spec fn id_key() -> Seq<char> {
    seq!['"', 'i', 'd', '"']
}

/// The two spellings by which an object says that its workspace is urgent.
pub open spec fn is_urgent_object(object: Seq<char>) -> bool {
    contains(object, "\"urgent\":true"@) || contains(object, "\"urgent\": true"@)
}

/// `Some(prefix + rest)`, or `None` when `rest` is `None`.
pub open spec fn prepend(prefix: Seq<WorkspaceInfo>, rest: Option<Seq<WorkspaceInfo>>) -> Option<
    Seq<WorkspaceInfo>,
> {
    match rest {
        Some(r) => Some(prefix + r),
        None => None,
    }
}

/// The workspaces found in `rem`, in the order of their `"id"` keys, duplicates kept.
/// Each `"id"` is followed by a `:` and a number; the object around it ends where
/// `object_end` says. An `"id"` whose number does not read as an `i32` is skipped by
/// moving one character past it; when that character takes more than one byte, the
/// reading fails (`None`): that is where a byte-indexed slice would panic.
pub open spec fn scan_workspaces(rem: Seq<char>, active: Option<i32>) -> Option<
    Seq<WorkspaceInfo>,
>
    decreases rem.len(),
{
    match find(rem, id_key()) {
        None => Some(Seq::empty()),
        Some(pos) => {
            let after = rem.skip(pos + 4);
            match find(after, seq![':']) {
                None => Some(Seq::empty()),
                Some(colon) => {
                    match number_after(after, colon) {
                        None => {
                            if byte_len(after) > 1 {
                                if utf8_width(after[0]) != 1 {
                                    None
                                } else {
                                    proof {
                                        lemma_find_bounds(rem, id_key());
                                    }
                                    scan_workspaces(after.drop_first(), active)
                                }
                            } else {
                                Some(Seq::empty())
                            }
                        },
                        Some(id) => {
                            let end = object_end(after);
                            let w = WorkspaceInfo {
                                id: id as i32,
                                active: active == Some(id as i32),
                                urgent: is_urgent_object(after.take(end)),
                            };
                            if end >= after.len() {
                                Some(seq![w])
                            } else {
                                proof {
                                    lemma_find_bounds(rem, id_key());
                                    lemma_object_end_bounds(after);
                                }
                                prepend(seq![w], scan_workspaces(after.skip(end + 1), active))
                            }
                        },
                    }
                },
            }
        },
    }
}

/// Whether some workspace of `s` has id `id`.
pub open spec fn has_id(s: Seq<WorkspaceInfo>, id: i32) -> bool {
    exists|i: int| 0 <= i < s.len() && s[i].id == id
}

/// `s` with every workspace whose id already occurred earlier left out.
pub open spec fn dedup_by_id(s: Seq<WorkspaceInfo>) -> Seq<WorkspaceInfo>
    decreases s.len(),
{
    if s.len() == 0 {
        s
    } else {
        let d = dedup_by_id(s.drop_last());
        if has_id(d, s.last().id) {
            d
        } else {
            d.push(s.last())
        }
    }
}

/// `w` inserted into `s` before the first workspace with a larger id.
pub open spec fn insert_by_id(s: Seq<WorkspaceInfo>, w: WorkspaceInfo) -> Seq<WorkspaceInfo>
    decreases s.len(),
{
    if s.len() == 0 {
        seq![w]
    } else if w.id < s[0].id {
        seq![w] + s
    } else {
        seq![s[0]] + insert_by_id(s.drop_first(), w)
    }
}

/// The stable sort of `s` by id (insertion sort).
pub open spec fn sort_by_id(s: Seq<WorkspaceInfo>) -> Seq<WorkspaceInfo>
    decreases s.len(),
{
    if s.len() == 0 {
        s
    } else {
        insert_by_id(sort_by_id(s.drop_last()), s.last())
    }
}

/// Whether reading `text` as `parse_workspace_json` does runs to its end without
/// slicing inside a character.
pub open spec fn workspace_json_readable(text: Seq<char>) -> bool {
    scan_workspaces(text, None) is Some
}

/// The workspaces that `parse_workspace_json` returns for `text`.
pub open spec fn workspaces_in(text: Seq<char>, active: Option<i32>) -> Seq<WorkspaceInfo> {
    sort_by_id(dedup_by_id(scan_workspaces(text, active).unwrap()))
}

pub proof fn lemma_scan_readable_any_active(rem: Seq<char>, active: Option<i32>)
    ensures
        (scan_workspaces(rem, active) is Some) == (scan_workspaces(rem, None) is Some),
    decreases rem.len(),
{
    match find(rem, id_key()) {
        None => {},
        Some(pos) => {
            lemma_find_bounds(rem, id_key());
            let after = rem.skip(pos + 4);
            match find(after, seq![':']) {
                None => {},
                Some(colon) => {
                    match number_after(after, colon) {
                        None => {
                            if byte_len(after) > 1 && utf8_width(after[0]) == 1 {
                                lemma_scan_readable_any_active(after.drop_first(), active);
                            }
                        },
                        Some(id) => {
                            let end = object_end(after);
                            lemma_object_end_bounds(after);
                            if end < after.len() {
                                lemma_scan_readable_any_active(after.skip(end + 1), active);
                            }
                        },
                    }
                },
            }
        },
    }
}

fn has_id_exec(s: &Vec<WorkspaceInfo>, id: i32) -> (b: bool)
    ensures
        b == has_id(s@, id),
{
    let mut i: usize = 0;
    while i < s.len()
        invariant
            i <= s@.len(),
            forall|j: int| 0 <= j < i ==> s@[j].id != id,
        decreases s.len() - i,
    {
        if s[i].id == id {
            return true;
        }
        i = i + 1;
    }
    false
}

/// The workspaces of `text` in the order of their keys, each id kept once, or `None`
/// where the reading slices inside a character.
fn scan_and_dedup(text: &[char], active: Option<i32>) -> (r: Option<Vec<WorkspaceInfo>>)
    ensures
        match r {
            Some(v) => scan_workspaces(text@, active) is Some && v@ == dedup_by_id(
                scan_workspaces(text@, active).unwrap(),
            ),
            None => scan_workspaces(text@, active) is None,
        },
{
    let mut found: Vec<WorkspaceInfo> = Vec::new();
    let ghost mut prefix: Seq<WorkspaceInfo> = Seq::empty();
    let mut rem: Vec<char> = slice_chars(text, 0, text.len());
    assert(rem@ =~= text@);
    assert(prefix + Seq::<WorkspaceInfo>::empty() =~= prefix);
    let key = vec!['"', 'i', 'd', '"'];
    let colon_pattern = vec![':'];
    let tight = chars_of("\"urgent\":true");
    let spaced = chars_of("\"urgent\": true");
    assert(key@ =~= id_key());
    assert(colon_pattern@ =~= seq![':']);
    loop
        invariant
            key@ == id_key(),
            colon_pattern@ == seq![':'],
            tight@ == "\"urgent\":true"@,
            spaced@ == "\"urgent\": true"@,
            scan_workspaces(text@, active) == prepend(prefix, scan_workspaces(rem@, active)),
            found@ == dedup_by_id(prefix),
        decreases rem@.len(),
    {
        let pos = match find_chars(rem.as_slice(), key.as_slice()) {
            Some(p) => p,
            None => {
                assert(prefix + Seq::<WorkspaceInfo>::empty() =~= prefix);
                return Some(found);
            },
        };
        proof {
            lemma_find_bounds(rem@, id_key());
        }
        assert(pos + 4 <= rem.len());
        let after = slice_chars(rem.as_slice(), pos + 4, rem.len());
        assert(after@ =~= rem@.skip(pos + 4));
        let colon = match find_chars(after.as_slice(), colon_pattern.as_slice()) {
            Some(c) => c,
            None => {
                assert(prefix + Seq::<WorkspaceInfo>::empty() =~= prefix);
                return Some(found);
            },
        };
        proof {
            lemma_find_bounds(after@, seq![':']);
        }
        match read_number_after(after.as_slice(), colon) {
            None => {
                proof {
                    lemma_byte_len_at_least_len(after@);
                    lemma_byte_len_at_least_len(after@.drop_first());
                }
                let wide = utf8_width_of_first(after.as_slice());
                if after.len() > 1 || wide > 1 {
                    if wide != 1 {
                        return None;
                    }
                    let next = slice_chars(after.as_slice(), 1, after.len());
                    assert(next@ =~= after@.drop_first());
                    rem = next;
                } else {
                    proof {
                        assert(byte_len(after@) <= 1) by {
                            if after@.len() == 1 {
                                assert(after@.drop_first() =~= Seq::<char>::empty());
                            }
                        }
                    }
                    assert(prefix + Seq::<WorkspaceInfo>::empty() =~= prefix);
                    return Some(found);
                }
            },
            Some(id) => {
                let end = object_end_chars(after.as_slice());
                proof {
                    lemma_object_end_bounds(after@);
                }
                let object = slice_chars(after.as_slice(), 0, end);
                assert(object@ =~= after@.take(end as int));
                let urgent = contains_chars(object.as_slice(), tight.as_slice())
                    || contains_chars(object.as_slice(), spaced.as_slice());
                let active_here = match active {
                    Some(a) => a == id,
                    None => false,
                };
                let w = WorkspaceInfo { id, active: active_here, urgent };
                let ghost old_prefix = prefix;
                proof {
                    prefix = prefix.push(w);
                    assert(prefix.drop_last() =~= old_prefix);
                }
                if !has_id_exec(&found, id) {
                    found.push(w);
                }
                if end >= after.len() {
                    assert(old_prefix + seq![w] =~= prefix);
                    return Some(found);
                }
                let next = slice_chars(after.as_slice(), end + 1, after.len());
                assert(next@ =~= after@.skip(end + 1));
                proof {
                    match scan_workspaces(next@, active) {
                        Some(r) => {
                            assert(old_prefix + (seq![w] + r) =~= prefix + r);
                        },
                        None => {},
                    }
                }
                rem = next;
            },
        }
    }
}

fn utf8_width_of_first(s: &[char]) -> (w: usize)
    ensures
        s@.len() > 0 ==> w == utf8_width(s@[0]),
        s@.len() == 0 ==> w == 0,
{
    if s.len() == 0 {
        0
    } else {
        crate::text::utf8_width_of(s[0])
    }
}

/// `v` with `w` inserted before its first workspace of larger id.
fn insert_by_id_exec(v: &mut Vec<WorkspaceInfo>, w: WorkspaceInfo)
    ensures
        final(v)@ == insert_by_id(old(v)@, w),
{
    let ghost s = v@;
    let mut p: usize = 0;
    assert(s.take(0) + s.skip(0) =~= s);
    assert(s.take(0) + insert_by_id(s.skip(0), w) =~= insert_by_id(s, w));
    while p < v.len() && !(w.id < v[p].id)
        invariant
            p <= s.len(),
            v@ == s,
            insert_by_id(s, w) == s.take(p as int) + insert_by_id(s.skip(p as int), w),
        decreases v.len() - p,
    {
        assert(s.skip(p as int).drop_first() =~= s.skip(p + 1));
        assert(s.take(p as int) + (seq![s[p as int]] + insert_by_id(s.skip(p + 1), w))
            =~= s.take(p + 1) + insert_by_id(s.skip(p + 1), w));
        p = p + 1;
    }
    v.insert(p, w);
    assert(s.take(p as int) + insert_by_id(s.skip(p as int), w) =~= s.insert(p as int, w));
}

/// The stable sort by id of `v`.
fn sort_by_id_exec(v: &Vec<WorkspaceInfo>) -> (r: Vec<WorkspaceInfo>)
    ensures
        r@ == sort_by_id(v@),
{
    let mut r: Vec<WorkspaceInfo> = Vec::new();
    assert(v@.take(0) =~= Seq::<WorkspaceInfo>::empty());
    for k in 0..v.len()
        invariant
            r@ == sort_by_id(v@.take(k as int)),
    {
        assert(v@.take(k + 1).drop_last() =~= v@.take(k as int));
        insert_by_id_exec(&mut r, v[k]);
    }
    assert(v@.take(v@.len() as int) =~= v@);
    r
}

/// Whether `text` can be read by `parse_workspace_json` (see `workspace_json_readable`).
pub fn workspace_json_is_readable(text: &str) -> (b: bool)
    ensures
        b == workspace_json_readable(text@),
{
    let t = chars_of(text);
    scan_and_dedup(t.as_slice(), None).is_some()
}

/// The workspaces listed in the `hyprctl -j workspaces` output `text`: one per distinct
/// id, the first object with that id deciding whether it is urgent, sorted by id, and
/// marked active when its id is `active_id`.
pub fn parse_workspace_json(text: &str, active_id: Option<i32>) -> (r: Vec<WorkspaceInfo>)
    requires
        workspace_json_readable(text@),
    ensures
        r@ == workspaces_in(text@, active_id),
{
    let t = chars_of(text);
    proof {
        lemma_scan_readable_any_active(text@, active_id);
    }
    match scan_and_dedup(t.as_slice(), active_id) {
        Some(found) => sort_by_id_exec(&found),
        None => Vec::new(),
    }
}


// ------------------------------------------------------------
// Properties of the workspace list
// ------------------------------------------------------------

/// Whether the ids of `s` strictly increase.
pub open spec fn strictly_sorted(s: Seq<WorkspaceInfo>) -> bool {
    forall|i: int, j: int| 0 <= i < j < s.len() ==> s[i].id < s[j].id
}

/// Whether no two workspaces of `s` share an id.
pub open spec fn distinct_ids(s: Seq<WorkspaceInfo>) -> bool {
    forall|i: int, j: int| 0 <= i < s.len() && 0 <= j < s.len() && i != j ==> s[i].id != s[j].id
}

/// Whether `w` is the first workspace of `s` with its id.
pub open spec fn is_first_of_its_id(s: Seq<WorkspaceInfo>, w: WorkspaceInfo) -> bool {
    exists|k: int| 0 <= k < s.len() && s[k] == w && forall|m: int| 0 <= m < k ==> s[m].id != w.id
}

proof fn lemma_dedup(s: Seq<WorkspaceInfo>)
    ensures
        distinct_ids(dedup_by_id(s)),
        forall|i: int|
            0 <= i < dedup_by_id(s).len() ==> is_first_of_its_id(s, #[trigger] dedup_by_id(s)[i]),
        forall|k: int| 0 <= k < s.len() ==> has_id(dedup_by_id(s), #[trigger] s[k].id),
    decreases s.len(),
{
    if s.len() > 0 {
        let s0 = s.drop_last();
        let d = dedup_by_id(s0);
        let last = s.last();
        lemma_dedup(s0);
        assert forall|i: int| 0 <= i < d.len() implies is_first_of_its_id(s, #[trigger] d[i]) by {
            assert(is_first_of_its_id(s0, d[i]));
            let k = choose|k: int|
                0 <= k < s0.len() && s0[k] == d[i] && forall|m: int| 0 <= m < k ==> s0[m].id != d[i].id;
            assert(s[k] == d[i]);
            assert forall|m: int| 0 <= m < k implies s[m].id != d[i].id by {
                assert(s[m] == s0[m]);
            }
        }
        if has_id(d, last.id) {
            assert forall|k: int| 0 <= k < s.len() implies has_id(dedup_by_id(s), #[trigger] s[k].id) by {
                if k < s.len() - 1 {
                    assert(s[k] == s0[k]);
                }
            }
        } else {
            let e = d.push(last);
            assert(dedup_by_id(s) == e);
            assert forall|i: int| 0 <= i < e.len() implies is_first_of_its_id(s, #[trigger] e[i]) by {
                if i < d.len() {
                    assert(e[i] == d[i]);
                } else {
                    assert(e[i] == last);
                    assert forall|m: int| 0 <= m < s.len() - 1 implies s[m].id != last.id by {
                        assert(s[m] == s0[m]);
                        assert(has_id(d, s0[m].id));
                    }
                    assert(s[s.len() - 1] == last);
                }
            }
            assert forall|k: int| 0 <= k < s.len() implies has_id(e, #[trigger] s[k].id) by {
                if k < s.len() - 1 {
                    assert(s[k] == s0[k]);
                    assert(has_id(d, s0[k].id));
                    let j = choose|j: int| 0 <= j < d.len() && d[j].id == s0[k].id;
                    assert(e[j] == d[j]);
                } else {
                    assert(e[d.len() as int] == last);
                }
            }
            assert forall|i: int, j: int| 0 <= i < e.len() && 0 <= j < e.len() && i != j implies e[i].id
                != e[j].id by {
                if i < d.len() && j < d.len() {
                    assert(e[i] == d[i] && e[j] == d[j]);
                } else if i < d.len() {
                    assert(e[i] == d[i]);
                } else {
                    assert(e[j] == d[j]);
                }
            }
        }
    }
}

proof fn lemma_insert_by_id(s: Seq<WorkspaceInfo>, w: WorkspaceInfo)
    requires
        strictly_sorted(s),
        !has_id(s, w.id),
    ensures
        strictly_sorted(insert_by_id(s, w)),
        insert_by_id(s, w).len() == s.len() + 1,
        forall|x: WorkspaceInfo| #[trigger] insert_by_id(s, w).contains(x) <==> (s.contains(x) || x == w),
    decreases s.len(),
{
    let r = insert_by_id(s, w);
    if s.len() == 0 {
        assert forall|x: WorkspaceInfo| r.contains(x) <==> (s.contains(x) || x == w) by {
            if r.contains(x) {
                assert(r[0] == w);
            }
            if x == w {
                assert(r[0] == w);
            }
        }
    } else if w.id < s[0].id {
        assert forall|x: WorkspaceInfo| r.contains(x) <==> (s.contains(x) || x == w) by {
            if r.contains(x) {
                let i = choose|i: int| 0 <= i < r.len() && r[i] == x;
                if i > 0 {
                    assert(s[i - 1] == x);
                }
            }
            if s.contains(x) {
                let i = choose|i: int| 0 <= i < s.len() && s[i] == x;
                assert(r[i + 1] == x);
            }
            if x == w {
                assert(r[0] == w);
            }
        }
    } else {
        let t = s.drop_first();
        assert(!has_id(t, w.id)) by {
            if has_id(t, w.id) {
                let j = choose|j: int| 0 <= j < t.len() && t[j].id == w.id;
                assert(s[j + 1].id == w.id);
            }
        }
        lemma_insert_by_id(t, w);
        let rt = insert_by_id(t, w);
        assert(r == seq![s[0]] + rt);
        assert(s[0].id < w.id) by {
            assert(s[0].id != w.id);
        }
        assert forall|x: WorkspaceInfo| r.contains(x) <==> (s.contains(x) || x == w) by {
            if r.contains(x) {
                let i = choose|i: int| 0 <= i < r.len() && r[i] == x;
                if i > 0 {
                    assert(rt[i - 1] == x);
                    assert(rt.contains(x));
                    if t.contains(x) {
                        let j = choose|j: int| 0 <= j < t.len() && t[j] == x;
                        assert(s[j + 1] == x);
                    }
                } else {
                    assert(s[0] == x);
                }
            }
            if s.contains(x) {
                let i = choose|i: int| 0 <= i < s.len() && s[i] == x;
                if i > 0 {
                    assert(t[i - 1] == x);
                    assert(t.contains(x));
                    assert(rt.contains(x));
                    let j = choose|j: int| 0 <= j < rt.len() && rt[j] == x;
                    assert(r[j + 1] == x);
                } else {
                    assert(r[0] == x);
                }
            }
            if x == w {
                assert(rt.contains(w));
                let j = choose|j: int| 0 <= j < rt.len() && rt[j] == w;
                assert(r[j + 1] == w);
            }
        }
        assert forall|i: int, j: int| 0 <= i < j < r.len() implies r[i].id < r[j].id by {
            if i == 0 {
                assert(rt.contains(r[j]));
                assert(r[j] == rt[j - 1]);
                if t.contains(r[j]) {
                    let k = choose|k: int| 0 <= k < t.len() && t[k] == r[j];
                    assert(s[k + 1] == r[j]);
                }
            } else {
                assert(r[i] == rt[i - 1] && r[j] == rt[j - 1]);
            }
        }
    }
}

proof fn lemma_sort_by_id(s: Seq<WorkspaceInfo>)
    requires
        distinct_ids(s),
    ensures
        strictly_sorted(sort_by_id(s)),
        sort_by_id(s).len() == s.len(),
        forall|x: WorkspaceInfo| #[trigger] sort_by_id(s).contains(x) <==> s.contains(x),
    decreases s.len(),
{
    if s.len() > 0 {
        let s0 = s.drop_last();
        assert(distinct_ids(s0)) by {
            assert forall|i: int, j: int| 0 <= i < s0.len() && 0 <= j < s0.len() && i != j implies s0[i].id
                != s0[j].id by {
                assert(s0[i] == s[i] && s0[j] == s[j]);
            }
        }
        lemma_sort_by_id(s0);
        let r0 = sort_by_id(s0);
        assert(!has_id(r0, s.last().id)) by {
            if has_id(r0, s.last().id) {
                let j = choose|j: int| 0 <= j < r0.len() && r0[j].id == s.last().id;
                assert(r0.contains(r0[j]));
                assert(s0.contains(r0[j]));
                let k = choose|k: int| 0 <= k < s0.len() && s0[k] == r0[j];
                assert(s[k] == s0[k]);
                assert(s[s.len() - 1] == s.last());
            }
        }
        lemma_insert_by_id(r0, s.last());
        assert forall|x: WorkspaceInfo| sort_by_id(s).contains(x) <==> s.contains(x) by {
            if s.contains(x) {
                let k = choose|k: int| 0 <= k < s.len() && s[k] == x;
                if k < s.len() - 1 {
                    assert(s0[k] == x);
                    assert(s0.contains(x));
                }
            }
            if s0.contains(x) {
                let k = choose|k: int| 0 <= k < s0.len() && s0[k] == x;
                assert(s[k] == x);
            }
            if x == s.last() {
                assert(s[s.len() - 1] == x);
            }
        }
    }
}

proof fn lemma_scan_active(rem: Seq<char>, active: Option<i32>)
    requires
        scan_workspaces(rem, active) is Some,
    ensures
        forall|i: int|
            0 <= i < scan_workspaces(rem, active).unwrap().len() ==> (#[trigger] scan_workspaces(
                rem,
                active,
            ).unwrap()[i]).active == (active == Some(scan_workspaces(rem, active).unwrap()[i].id)),
    decreases rem.len(),
{
    match find(rem, id_key()) {
        None => {},
        Some(pos) => {
            lemma_find_bounds(rem, id_key());
            let after = rem.skip(pos + 4);
            match find(after, seq![':']) {
                None => {},
                Some(colon) => {
                    match number_after(after, colon) {
                        None => {
                            if byte_len(after) > 1 && utf8_width(after[0]) == 1 {
                                lemma_scan_active(after.drop_first(), active);
                            }
                        },
                        Some(id) => {
                            let end = object_end(after);
                            lemma_object_end_bounds(after);
                            if end < after.len() {
                                lemma_scan_active(after.skip(end + 1), active);
                            }
                        },
                    }
                },
            }
        },
    }
}

/// The workspace list of `parse_workspace_json` is sorted by id with no id twice; each
/// of its workspaces is the first one the JSON gives with its id, every id of the JSON
/// has one, and a workspace is active exactly when its id is the active id.
pub proof fn law_workspace_list(text: Seq<char>, active: Option<i32>)
    requires
        workspace_json_readable(text),
    ensures
        ({
            let found = scan_workspaces(text, active).unwrap();
            let r = workspaces_in(text, active);
            &&& strictly_sorted(r)
            &&& forall|i: int| 0 <= i < r.len() ==> is_first_of_its_id(found, #[trigger] r[i])
            &&& forall|k: int| 0 <= k < found.len() ==> has_id(r, #[trigger] found[k].id)
            &&& forall|i: int| 0 <= i < r.len() ==> (#[trigger] r[i]).active == (active == Some(r[i].id))
        }),
{
    lemma_scan_readable_any_active(text, active);
    let found = scan_workspaces(text, active).unwrap();
    let d = dedup_by_id(found);
    lemma_dedup(found);
    lemma_sort_by_id(d);
    lemma_scan_active(text, active);
    let r = workspaces_in(text, active);
    assert forall|i: int| 0 <= i < r.len() implies is_first_of_its_id(found, #[trigger] r[i]) by {
        assert(r.contains(r[i]));
        assert(d.contains(r[i]));
        let j = choose|j: int| 0 <= j < d.len() && d[j] == r[i];
        assert(is_first_of_its_id(found, d[j]));
    }
    assert forall|k: int| 0 <= k < found.len() implies has_id(r, #[trigger] found[k].id) by {
        assert(has_id(d, found[k].id));
        let j = choose|j: int| 0 <= j < d.len() && d[j].id == found[k].id;
        assert(d.contains(d[j]));
        assert(r.contains(d[j]));
        let i = choose|i: int| 0 <= i < r.len() && r[i] == d[j];
    }
    assert forall|i: int| 0 <= i < r.len() implies (#[trigger] r[i]).active == (active == Some(r[i].id)) by {
        assert(is_first_of_its_id(found, r[i]));
        let k = choose|k: int|
            0 <= k < found.len() && found[k] == r[i] && forall|m: int| 0 <= m < k ==> found[m].id != r[i].id;
        assert(found[k].active == (active == Some(found[k].id)));
    }
}

} // verus!
