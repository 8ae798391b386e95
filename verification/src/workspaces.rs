//! The workspace buttons: which workspaces get a button, and what each button shows and
//! runs.
use vstd::prelude::*;

use crate::config::WorkspaceConfig;
use crate::hyprland::{
    law_workspace_list, strictly_sorted, workspace_json_readable, workspaces_in, WorkspaceInfo,
};
use crate::text::{
    chars_of, contains, decimal, digit_char, law_replace_leaves_no_match, push_signed_decimal,
    replace, replace_chars, signed_decimal, string_of,
};
use crate::widgets::{click_setup_of, requested_size, setup_clicks, size_request, ClickSetup};

verus! {

broadcast use vstd::string::group_string_axioms;

/// The last workspace of `found` with id `id` (a map keyed by id keeps the last one).
pub open spec fn last_with_id(found: Seq<WorkspaceInfo>, id: i32) -> Option<WorkspaceInfo>
    decreases found.len(),
{
    if found.len() == 0 {
        None
    } else if found.last().id == id {
        Some(found.last())
    } else {
        last_with_id(found.drop_last(), id)
    }
}

/// A button for each of `numbers` in order: the workspace found with that id, or, when
/// empty workspaces are shown, an inactive and calm one; otherwise none.
pub open spec fn numbered_workspaces(
    found: Seq<WorkspaceInfo>,
    numbers: Seq<i32>,
    show_empty: bool,
) -> Seq<WorkspaceInfo>
    decreases numbers.len(),
{
    if numbers.len() == 0 {
        seq![]
    } else {
        let before = numbered_workspaces(found, numbers.drop_last(), show_empty);
        let id = numbers.last();
        match last_with_id(found, id) {
            Some(w) => before.push(w),
            None => if show_empty {
                before.push(WorkspaceInfo { id, active: false, urgent: false })
            } else {
                before
            },
        }
    }
}

/// The workspaces of `found` that are not special (whose ids are not negative), in
/// order.
pub open spec fn regular_workspaces(found: Seq<WorkspaceInfo>) -> Seq<WorkspaceInfo>
    decreases found.len(),
{
    if found.len() == 0 {
        seq![]
    } else if found.last().id >= 0 {
        regular_workspaces(found.drop_last()).push(found.last())
    } else {
        regular_workspaces(found.drop_last())
    }
}

/// The workspaces that get a button: those of the configured numbers (see
/// `numbered_workspaces`), or, when no numbers are configured, every workspace found,
/// special ones only when they are shown.
pub open spec fn shown_workspaces(
    found: Seq<WorkspaceInfo>,
    numbers: Seq<i32>,
    show_empty: bool,
    show_special: bool,
) -> Seq<WorkspaceInfo> {
    if numbers.len() == 0 {
        if show_special {
            found
        } else {
            regular_workspaces(found)
        }
    } else {
        numbered_workspaces(found, numbers, show_empty)
    }
}

proof fn lemma_last_with_id(found: Seq<WorkspaceInfo>, id: i32)
    ensures
        last_with_id(found, id) matches Some(w) ==> w.id == id && found.contains(w),
    decreases found.len(),
{
    if found.len() > 0 && found.last().id != id {
        lemma_last_with_id(found.drop_last(), id);
        if let Some(w) = last_with_id(found.drop_last(), id) {
            let k = choose|k: int| 0 <= k < found.drop_last().len() && found.drop_last()[k] == w;
            assert(found[k] == w);
        }
    } else if found.len() > 0 {
        assert(found[found.len() - 1] == found.last());
    }
}

/// With configured numbers, the buttons follow those numbers: each shows the workspace
/// found with its id, or, when empty workspaces are shown, an inactive workspace that is
/// not urgent; with empty workspaces shown there is exactly one button per number, in
/// the order of the numbers, and without them every button is a workspace that was found.
pub proof fn law_numbered_buttons(
    found: Seq<WorkspaceInfo>,
    numbers: Seq<i32>,
    show_empty: bool,
    show_special: bool,
)
    requires
        numbers.len() > 0,
    ensures
        ({
            let shown = shown_workspaces(found, numbers, show_empty, show_special);
            &&& forall|i: int|
                0 <= i < shown.len() ==> found.contains(#[trigger] shown[i]) || (show_empty
                    && !shown[i].active && !shown[i].urgent)
            &&& show_empty ==> shown.len() == numbers.len()
            &&& show_empty ==> forall|i: int| 0 <= i < shown.len() ==> (#[trigger] shown[i]).id == numbers[i]
        }),
{
    lemma_numbered(found, numbers, show_empty);
}

/// With no configured numbers, the bar shows a button for every workspace Hyprland
/// lists, special ones (negative ids) only when they are shown, in ascending order of id
/// with no id twice; the buttons depend on the listing and the configuration alone.
pub proof fn law_all_workspaces_in_order(
    text: Seq<char>,
    active: Option<i32>,
    numbers: Seq<i32>,
    show_empty: bool,
    show_special: bool,
)
    requires
        workspace_json_readable(text),
        numbers.len() == 0,
    ensures
        ({
            let listed = workspaces_in(text, active);
            let shown = shown_workspaces(listed, numbers, show_empty, show_special);
            &&& strictly_sorted(shown)
            &&& forall|w: WorkspaceInfo|
                #[trigger] shown.contains(w) <==> listed.contains(w) && (show_special || w.id >= 0)
        }),
{
    law_workspace_list(text, active);
    lemma_regular(workspaces_in(text, active));
}

proof fn lemma_regular(found: Seq<WorkspaceInfo>)
    ensures
        strictly_sorted(found) ==> strictly_sorted(regular_workspaces(found)),
        forall|w: WorkspaceInfo|
            #[trigger] regular_workspaces(found).contains(w) <==> found.contains(w) && w.id >= 0,
        forall|i: int|
            0 <= i < regular_workspaces(found).len() ==> found.contains(
                #[trigger] regular_workspaces(found)[i],
            ),
    decreases found.len(),
{
    if found.len() > 0 {
        let d = found.drop_last();
        lemma_regular(d);
        let rd = regular_workspaces(d);
        let r = regular_workspaces(found);
        assert forall|i: int| 0 <= i < r.len() implies found.contains(#[trigger] r[i]) by {
            if i < rd.len() {
                assert(r[i] == rd[i]);
                assert(d.contains(rd[i]));
                let k = choose|k: int| 0 <= k < d.len() && d[k] == rd[i];
                assert(found[k] == rd[i]);
            } else {
                assert(found[found.len() - 1] == found.last());
            }
        }
        assert forall|w: WorkspaceInfo| #[trigger] r.contains(w) <==> found.contains(w) && w.id >= 0 by {
            if r.contains(w) {
                let i = choose|i: int| 0 <= i < r.len() && r[i] == w;
                assert(found.contains(r[i]));
                if i < rd.len() {
                    assert(r[i] == rd[i]);
                    assert(rd.contains(w));
                } else {
                    assert(w == found.last());
                }
            }
            if found.contains(w) && w.id >= 0 {
                let k = choose|k: int| 0 <= k < found.len() && found[k] == w;
                if k < found.len() - 1 {
                    assert(d[k] == w);
                    assert(d.contains(w));
                    assert(rd.contains(w));
                    let j = choose|j: int| 0 <= j < rd.len() && rd[j] == w;
                    assert(r[j] == w);
                } else {
                    assert(found.last() == w);
                    assert(r[r.len() - 1] == w);
                }
            }
        }
        if strictly_sorted(found) {
            assert(strictly_sorted(d));
            if found.last().id >= 0 {
                assert forall|i: int, j: int| 0 <= i < j < r.len() implies r[i].id < r[j].id by {
                    if j < rd.len() {
                        assert(r[i] == rd[i] && r[j] == rd[j]);
                    } else {
                        assert(r[i] == rd[i]);
                        assert(d.contains(rd[i]));
                        let k = choose|k: int| 0 <= k < d.len() && d[k] == rd[i];
                        assert(found[k] == d[k]);
                        assert(r[j] == found[found.len() - 1]);
                    }
                }
            }
        }
    }
}

/// Whether a workspace with the id was found.
pub open spec fn found_id(found: Seq<WorkspaceInfo>) -> spec_fn(i32) -> bool {
    |id: i32| last_with_id(found, id) is Some
}

/// The ids of `s`, in order.
pub open spec fn ids_of(s: Seq<WorkspaceInfo>) -> Seq<i32> {
    s.map_values(|w: WorkspaceInfo| w.id)
}

/// Without empty workspaces, the configured numbers keep a button exactly when a
/// workspace with that id was found, in the order of the numbers.
pub proof fn law_numbered_kept_when_found(
    found: Seq<WorkspaceInfo>,
    numbers: Seq<i32>,
    show_special: bool,
)
    requires
        numbers.len() > 0,
    ensures
        ids_of(shown_workspaces(found, numbers, false, show_special)) == numbers.filter(found_id(found)),
{
    lemma_numbered_ids(found, numbers);
}

proof fn lemma_numbered_ids(found: Seq<WorkspaceInfo>, numbers: Seq<i32>)
    ensures
        ids_of(numbered_workspaces(found, numbers, false)) == numbers.filter(found_id(found)),
    decreases numbers.len(),
{
    let pred = found_id(found);
    reveal(Seq::filter);
    if numbers.len() > 0 {
        lemma_numbered_ids(found, numbers.drop_last());
        lemma_last_with_id(found, numbers.last());
        let before = numbered_workspaces(found, numbers.drop_last(), false);
        let shown = numbered_workspaces(found, numbers, false);
        match last_with_id(found, numbers.last()) {
            Some(w) => {
                assert(shown == before.push(w));
                assert(pred(numbers.last()));
                assert(numbers.filter(pred) == numbers.drop_last().filter(pred).push(numbers.last()));
                assert(ids_of(shown) =~= ids_of(before).push(numbers.last()));
            },
            None => {
                assert(!pred(numbers.last()));
                assert(numbers.filter(pred) == numbers.drop_last().filter(pred));
                assert(shown == before);
            },
        }
    } else {
        assert(ids_of(numbered_workspaces(found, numbers, false)) =~= numbers.filter(pred));
    }
}

proof fn lemma_numbered(found: Seq<WorkspaceInfo>, numbers: Seq<i32>, show_empty: bool)
    ensures
        ({
            let shown = numbered_workspaces(found, numbers, show_empty);
            &&& forall|i: int|
                0 <= i < shown.len() ==> found.contains(#[trigger] shown[i]) || (show_empty
                    && !shown[i].active && !shown[i].urgent)
            &&& show_empty ==> shown.len() == numbers.len()
            &&& show_empty ==> forall|i: int| 0 <= i < shown.len() ==> (#[trigger] shown[i]).id == numbers[i]
        }),
    decreases numbers.len(),
{
    if numbers.len() > 0 {
        let before = numbered_workspaces(found, numbers.drop_last(), show_empty);
        lemma_numbered(found, numbers.drop_last(), show_empty);
        let id = numbers.last();
        lemma_last_with_id(found, id);
        let shown = numbered_workspaces(found, numbers, show_empty);
        assert forall|i: int| 0 <= i < shown.len() implies found.contains(#[trigger] shown[i]) || (
        show_empty && !shown[i].active && !shown[i].urgent) by {
            if i < before.len() {
                assert(shown[i] == before[i]);
            }
        }
        if show_empty {
            assert forall|i: int| 0 <= i < shown.len() implies (#[trigger] shown[i]).id == numbers[i] by {
                if i < before.len() {
                    assert(shown[i] == before[i]);
                    assert(numbers.drop_last()[i] == numbers[i]);
                }
            }
        }
    }
}

fn last_with_id_exec(found: &Vec<WorkspaceInfo>, id: i32) -> (r: Option<WorkspaceInfo>)
    ensures
        r == last_with_id(found@, id),
{
    let mut i = found.len();
    assert(found@.take(found@.len() as int) =~= found@);
    while i > 0
        invariant
            i <= found@.len(),
            last_with_id(found@, id) == last_with_id(found@.take(i as int), id),
        decreases i,
    {
        assert(found@.take(i as int).last() == found@[i - 1]);
        assert(found@.take(i as int).drop_last() =~= found@.take(i - 1));
        if found[i - 1].id == id {
            return Some(found[i - 1]);
        }
        i = i - 1;
    }
    None
}

/// The workspaces that get a button (see `shown_workspaces`).
pub fn update_workspaces(found: &Vec<WorkspaceInfo>, config: &WorkspaceConfig) -> (r: Vec<
    WorkspaceInfo,
>)
    ensures
        r@ == shown_workspaces(found@, config.numbers@, config.show_empty, config.show_special),
{
    if config.numbers.len() == 0 {
        let mut all: Vec<WorkspaceInfo> = Vec::new();
        for i in 0..found.len()
            invariant
                all@ == (if config.show_special {
                    found@.take(i as int)
                } else {
                    regular_workspaces(found@.take(i as int))
                }),
        {
            assert(found@.take(i + 1).drop_last() =~= found@.take(i as int));
            assert(found@.take(i + 1).last() == found@[i as int]);
            if config.show_special || found[i].id >= 0 {
                all.push(found[i]);
            }
            assert(found@.take(i as int).push(found@[i as int]) =~= found@.take(i + 1));
        }
        assert(found@.take(found@.len() as int) =~= found@);
        return all;
    }
    let mut shown: Vec<WorkspaceInfo> = Vec::new();
    let ghost numbers = config.numbers@;
    assert(numbers.take(0) =~= Seq::<i32>::empty());
    for k in 0..config.numbers.len()
        invariant
            numbers == config.numbers@,
            shown@ == numbered_workspaces(found@, numbers.take(k as int), config.show_empty),
    {
        let id = config.numbers[k];
        assert(numbers.take(k + 1).drop_last() =~= numbers.take(k as int));
        assert(numbers.take(k + 1).last() == id);
        match last_with_id_exec(found, id) {
            Some(w) => shown.push(w),
            None => if config.show_empty {
                shown.push(WorkspaceInfo { id, active: false, urgent: false });
            },
        }
    }
    assert(numbers.take(numbers.len() as int) =~= numbers);
    shown
}

/// A workspace button: its text, state classes, commands and size.
#[derive(Clone, Debug)]
pub struct WorkspaceButton {
    pub text: String,
    pub active: bool,
    pub urgent: bool,
    pub left_click: String,
    pub right_click: String,
    pub middle_click: String,
    /// The click handler, set up as for any module with no scroll commands.
    pub clicks: ClickSetup,
    /// Whether scrolling over the button runs `scroll_up` or `scroll_down`.
    pub scroll: bool,
    pub scroll_up: String,
    pub scroll_down: String,
    pub width: Option<i32>,
    pub height: Option<i32>,
}

/// `text` with every `{id}` replaced by the workspace id.
pub open spec fn with_id(text: Seq<char>, id: i32) -> Seq<char> {
    replace(text, "{id}"@, signed_decimal(id as int))
}

/// Whether `c` can appear in the decimal text of an integer: an ASCII digit or `-`.
pub open spec fn is_number_char(c: char) -> bool {
    ('0' <= c && c <= '9') || c == '-'
}

pub proof fn lemma_decimal_chars(n: nat)
    ensures
        decimal(n).len() > 0,
        forall|j: int| 0 <= j < decimal(n).len() ==> is_number_char(#[trigger] decimal(n)[j]),
    decreases n,
{
    assert forall|d: nat| d < 10 implies is_number_char(#[trigger] digit_char(d)) by {
        assert((digit_char(d) as u32) == d + 48);
    }
    if n >= 10 {
        lemma_decimal_chars(n / 10);
        let p = decimal(n / 10);
        assert forall|j: int| 0 <= j < decimal(n).len() implies is_number_char(
            #[trigger] decimal(n)[j],
        ) by {
            if j < p.len() {
                assert(decimal(n)[j] == p[j]);
            } else {
                assert(decimal(n)[j] == digit_char(n % 10));
            }
        }
    } else {
        assert(decimal(n)[0] == digit_char(n));
    }
}

/// Every `{id}` of a button's format or command is replaced: none is left in the text
/// that the button shows or runs.
pub proof fn law_no_id_placeholder_left(text: Seq<char>, id: i32)
    ensures
        !contains(with_id(text, id), "{id}"@),
{
    reveal_strlit("{id}");
    let key = "{id}"@;
    let to = signed_decimal(id as int);
    if id < 0 {
        lemma_decimal_chars((-id) as nat);
        assert forall|j: int| 0 <= j < to.len() implies is_number_char(#[trigger] to[j]) by {
            if j > 0 {
                assert(to[j] == decimal((-id) as nat)[j - 1]);
            }
        }
    } else {
        lemma_decimal_chars(id as nat);
    }
    assert forall|j: int| 0 <= j < to.len() implies !key.contains(#[trigger] to[j]) by {
        assert(is_number_char(to[j]));
        if key.contains(to[j]) {
            let k = choose|k: int| 0 <= k < key.len() && key[k] == to[j];
            assert(key =~= seq!['{', 'i', 'd', '}']);
        }
    }
    law_replace_leaves_no_match(text, key, to);
}

fn id_replaced(text: &str, id_chars: &Vec<char>, id: i32) -> (r: String)
    requires
        id_chars@ == signed_decimal(id as int),
    ensures
        r@ == with_id(text@, id),
{
    let t = chars_of(text);
    let key = chars_of("{id}");
    proof {
        reveal_strlit("{id}");
    }
    let out = replace_chars(t.as_slice(), key.as_slice(), id_chars.as_slice());
    string_of(out.as_slice())
}

/// The button of `workspace`: the format and the three click commands with `{id}`
/// replaced by its id, its state, the scroll commands when scrolling switches
/// workspaces, and the configured size where it is positive.
pub fn add_workspace_button(workspace: WorkspaceInfo, config: &WorkspaceConfig) -> (r:
    WorkspaceButton)
    ensures
        r.text@ == with_id(config.format@, workspace.id),
        r.active == workspace.active,
        r.urgent == workspace.urgent,
        r.left_click@ == with_id(config.left_click@, workspace.id),
        r.right_click@ == with_id(config.right_click@, workspace.id),
        r.middle_click@ == with_id(config.middle_click@, workspace.id),
        r.clicks == click_setup_of(
            r.left_click@,
            r.right_click@,
            r.middle_click@,
            Seq::empty(),
            Seq::empty(),
        ),
        r.scroll == config.scroll_switch,
        r.scroll_up@ == config.scroll_up@,
        r.scroll_down@ == config.scroll_down@,
        r.width == size_request(config.width),
        r.height == size_request(config.height),
{
    let mut id_chars: Vec<char> = Vec::new();
    push_signed_decimal(&mut id_chars, workspace.id as i64);
    assert(Seq::<char>::empty() + signed_decimal(workspace.id as int) =~= signed_decimal(
        workspace.id as int,
    ));
    let text = id_replaced(config.format.as_str(), &id_chars, workspace.id);
    let left = id_replaced(config.left_click.as_str(), &id_chars, workspace.id);
    let right = id_replaced(config.right_click.as_str(), &id_chars, workspace.id);
    let middle = id_replaced(config.middle_click.as_str(), &id_chars, workspace.id);
    let clicks = setup_clicks(left.as_str(), right.as_str(), middle.as_str(), "", "");
    proof {
        reveal_strlit("");
    }
    WorkspaceButton {
        text,
        active: workspace.active,
        urgent: workspace.urgent,
        left_click: left,
        right_click: right,
        middle_click: middle,
        clicks,
        scroll: config.scroll_switch,
        scroll_up: config.scroll_up.clone(),
        scroll_down: config.scroll_down.clone(),
        width: requested_size(config.width),
        height: requested_size(config.height),
    }
}

} // verus!
