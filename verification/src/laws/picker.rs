//! Laws of the open-with picker.

use vstd::prelude::*;
use vstd::utf8::encode_utf8;

use crate::app::editor::{EditorError, LaunchView};
use crate::app::open_with::{
    clamped, curated_names, holding, matches_of, needle_of, picker_step, rows_of, starting,
    ActionView, PromptView, RowView, CURATED, DISPLAY_LIMIT,
};
use crate::app::path_listing::{listing_run, listing_step, ListingAction, ListingEvent};
use crate::event::{KeyCode, KeyEvent, KeyEventKind, KeyModifiers};
use crate::path::shown_name;
use crate::text::{lower, occurs, text_leq, text_order, text_order_is_total, trim, words};

verus! {

/// How often a name stands in a list.
pub open spec fn times(names: Seq<Seq<char>>, name: Seq<char>) -> nat {
    names.to_multiset().count(name)
}

/// The names whose lower case holds the needle anywhere.
pub open spec fn matching(needle: Seq<char>) -> spec_fn(Seq<char>) -> bool {
    |name: Seq<char>| occurs(needle, lower(name))
}

/// Whether a name that matches comes before another, or may: names that begin with the needle
/// come first, and otherwise the alphabet decides.
pub open spec fn ranks_before(needle: Seq<char>, a: Seq<char>, b: Seq<char>) -> bool {
    let a_begins = needle.is_prefix_of(lower(a));
    let b_begins = needle.is_prefix_of(lower(b));
    (a_begins && !b_begins) || (a_begins == b_begins && text_leq(a, b))
}

proof fn lemma_filter_times(
    names: Seq<Seq<char>>,
    keep: spec_fn(Seq<char>) -> bool,
    name: Seq<char>,
)
    ensures
        times(names.filter(keep), name) == (if keep(name) {
            times(names, name)
        } else {
            0
        }),
    decreases names.len(),
{
    broadcast use vstd::seq_lib::group_to_multiset_ensures;

    reveal(Seq::filter);
    if names.len() > 0 {
        let rest = names.drop_last();
        lemma_filter_times(rest, keep, name);
        assert(names == rest.push(names.last()));
        assert(names.to_multiset() =~= rest.to_multiset().insert(names.last()));
        if keep(names.last()) {
            assert(names.filter(keep) == rest.filter(keep).push(names.last()));
            assert(names.filter(keep).to_multiset() =~= rest.filter(keep).to_multiset().insert(
                names.last(),
            ));
        }
    } else {
        assert(names.filter(keep) == names);
        assert(!names.contains(name));
    }
}

/// What the offer is cut from: every matching candidate, ranked.
proof fn lemma_ranked(query: Seq<char>, candidates: Seq<Seq<char>>) -> (all: Seq<Seq<char>>)
    requires
        words(query).len() > 0,
    ensures
        ({
            let needle = lower(words(query)[0]);
            let offered = matches_of(query, candidates);
            &&& all.len() == candidates.filter(matching(needle)).len()
            &&& all.to_multiset() == candidates.filter(matching(needle)).to_multiset()
            &&& forall|i: int, j: int|
                0 <= i < j < all.len() ==> #[trigger] ranks_before(needle, all[i], all[j])
            &&& offered == all.take(
                if all.len() <= 20 {
                    all.len() as int
                } else {
                    20
                },
            )
        }),
{
    broadcast use vstd::seq_lib::group_to_multiset_ensures;

    let needle = lower(words(query)[0]);
    if query.len() == 0 {
        assert(words(query).len() == 0);
    }
    assert(needle == needle_of(query));
    let front = candidates.filter(starting(needle));
    let back = candidates.filter(holding(needle));
    text_order_is_total();
    front.lemma_sort_by_ensures(text_order());
    back.lemma_sort_by_ensures(text_order());
    let a = front.sort_by(text_order());
    let b = back.sort_by(text_order());
    let all = a + b;
    vstd::seq_lib::lemma_multiset_commutative(a, b);
    let whole = candidates.filter(matching(needle));
    assert forall|name: Seq<char>| #[trigger]
        all.to_multiset().count(name) == whole.to_multiset().count(name) by {
        lemma_filter_times(candidates, starting(needle), name);
        lemma_filter_times(candidates, holding(needle), name);
        lemma_filter_times(candidates, matching(needle), name);
        if needle.is_prefix_of(lower(name)) {
            assert(lower(name).subrange(0, needle.len() as int) =~= needle);
            assert(occurs(needle, lower(name))) by {
                let i = 0int;
                assert(lower(name).subrange(i, i + needle.len()) == needle);
            }
        }
    }
    assert(all.to_multiset() =~= whole.to_multiset());
    assert(all.to_multiset().len() == whole.to_multiset().len());
    assert forall|i: int| 0 <= i < a.len() implies needle.is_prefix_of(
        lower(#[trigger] a[i]),
    ) by {
        lemma_filter_times(candidates, starting(needle), a[i]);
        assert(a.contains(a[i]));
        assert(a.to_multiset().count(a[i]) > 0);
    }
    assert forall|i: int| 0 <= i < b.len() implies !needle.is_prefix_of(
        lower(#[trigger] b[i]),
    ) by {
        lemma_filter_times(candidates, holding(needle), b[i]);
        assert(b.contains(b[i]));
        assert(b.to_multiset().count(b[i]) > 0);
    }
    assert forall|i: int, j: int| 0 <= i < j < all.len() implies #[trigger] ranks_before(
        needle,
        all[i],
        all[j],
    ) by {
        if j < a.len() {
            assert(text_order()(a[i], a[j]));
        } else if i >= a.len() {
            assert(text_order()(b[i - a.len()], b[j - a.len()]));
        }
    }
    assert(all.take(all.len() as int) == all);
    all
}

/// Every candidate whose lower case holds the lower-cased first word of the query, anywhere in
/// it, is offered as often as it is a candidate, and nothing else is. Only where more than twenty
/// match are some left out; then twenty are offered, and whatever is left out ranks behind all of
/// them.
pub proof fn every_match_is_offered(query: Seq<char>, candidates: Seq<Seq<char>>)
    requires
        words(query).len() > 0,
    ensures
        ({
            let needle = lower(words(query)[0]);
            let offered = matches_of(query, candidates);
            let found = candidates.filter(matching(needle));
            &&& found.len() <= 20 ==> offered.to_multiset() == found.to_multiset()
            &&& offered.len() == (if found.len() <= 20 {
                found.len()
            } else {
                20
            })
            &&& forall|name: Seq<char>|
                offered.len() < 20 && occurs(needle, lower(name)) ==> #[trigger] times(
                    offered,
                    name,
                ) == times(candidates, name)
            &&& forall|name: Seq<char>| #[trigger]
                times(offered, name) <= times(candidates, name)
            &&& forall|name: Seq<char>|
                !occurs(needle, lower(name)) ==> #[trigger] times(offered, name) == 0
            &&& forall|name: Seq<char>, i: int|
                #![trigger times(offered, name), offered[i]]
                occurs(needle, lower(name)) && times(offered, name) < times(candidates, name)
                    && 0 <= i < offered.len() ==> ranks_before(needle, offered[i], name)
        }),
{
    broadcast use vstd::seq_lib::group_to_multiset_ensures;

    let needle = lower(words(query)[0]);
    let offered = matches_of(query, candidates);
    let found = candidates.filter(matching(needle));
    let all = lemma_ranked(query, candidates);
    let n = if all.len() <= 20 {
        all.len() as int
    } else {
        20
    };
    let rest = all.skip(n);
    assert(all =~= offered + rest);
    vstd::seq_lib::lemma_multiset_commutative(offered, rest);
    assert(all.to_multiset() =~= offered.to_multiset().add(rest.to_multiset()));
    if found.len() <= 20 {
        assert(offered =~= all);
    }
    assert forall|name: Seq<char>|
        times(offered, name) + times(rest, name) == (if occurs(needle, lower(name)) {
            #[trigger] times(candidates, name)
        } else {
            0
        }) by {
        lemma_filter_times(candidates, matching(needle), name);
    }
    assert forall|name: Seq<char>|
        offered.len() < 20 && occurs(needle, lower(name)) implies #[trigger] times(offered, name)
        == times(candidates, name) by {
        assert(rest.len() == 0);
        assert(!rest.contains(name));
        assert(times(candidates, name) == times(offered, name) + times(rest, name));
    }
    assert forall|name: Seq<char>| #[trigger]
        times(offered, name) <= times(candidates, name) by {
        assert(times(candidates, name) >= 0);
        lemma_filter_times(candidates, matching(needle), name);
    }
    assert forall|name: Seq<char>|
        !occurs(needle, lower(name)) implies #[trigger] times(offered, name) == 0 by {
        lemma_filter_times(candidates, matching(needle), name);
    }
    assert forall|name: Seq<char>, i: int|
        #![trigger times(offered, name), offered[i]]
        occurs(needle, lower(name)) && times(offered, name) < times(candidates, name) && 0 <= i
            < offered.len() implies ranks_before(needle, offered[i], name) by {
        assert(times(candidates, name) == times(offered, name) + times(rest, name));
        assert(rest.contains(name));
        let k = choose|k: int| 0 <= k < rest.len() && rest[k] == name;
        assert(all[n + k] == name);
        assert(offered[i] == all[i]);
        assert(ranks_before(needle, all[i], all[n + k]));
    }
}

/// What is offered stands in its rank: the names that begin with the first word of the query
/// before those that do not, and either group in alphabetical order.
pub proof fn the_offer_is_ranked(query: Seq<char>, candidates: Seq<Seq<char>>)
    requires
        words(query).len() > 0,
    ensures
        forall|i: int, j: int|
            #![trigger matches_of(query, candidates)[i], matches_of(query, candidates)[j]]
            0 <= i < j < matches_of(query, candidates).len() ==> ranks_before(
                lower(words(query)[0]),
                matches_of(query, candidates)[i],
                matches_of(query, candidates)[j],
            ),
{
    let all = lemma_ranked(query, candidates);
    assert forall|i: int, j: int|
        #![trigger matches_of(query, candidates)[i], matches_of(query, candidates)[j]]
        0 <= i < j < matches_of(query, candidates).len() implies ranks_before(
        lower(words(query)[0]),
        matches_of(query, candidates)[i],
        matches_of(query, candidates)[j],
    ) by {
        assert(ranks_before(lower(words(query)[0]), all[i], all[j]));
    }
}

proof fn lemma_filter_source(
    names: Seq<Seq<char>>,
    keep: spec_fn(Seq<char>) -> bool,
    i: int,
) -> (a: int)
    requires
        0 <= i < names.filter(keep).len(),
    ensures
        0 <= a < names.len(),
        names[a] == names.filter(keep)[i],
    decreases names.len(),
{
    reveal(Seq::filter);
    let rest = names.drop_last();
    if i < rest.filter(keep).len() {
        let a = lemma_filter_source(rest, keep, i);
        assert(rest[a] == names[a]);
        a
    } else {
        names.len() - 1
    }
}

proof fn lemma_filter_pair(
    names: Seq<Seq<char>>,
    keep: spec_fn(Seq<char>) -> bool,
    i: int,
    j: int,
) -> (r: (int, int))
    requires
        0 <= i < j < names.filter(keep).len(),
    ensures
        0 <= r.0 < r.1 < names.len(),
        names[r.0] == names.filter(keep)[i],
        names[r.1] == names.filter(keep)[j],
    decreases names.len(),
{
    reveal(Seq::filter);
    let rest = names.drop_last();
    if j < rest.filter(keep).len() {
        let (a, b) = lemma_filter_pair(rest, keep, i, j);
        assert(rest[a] == names[a] && rest[b] == names[b]);
        (a, b)
    } else {
        let a = lemma_filter_source(rest, keep, i);
        assert(rest[a] == names[a]);
        (a, names.len() - 1)
    }
}

/// Whether two names stand in this order in a list.
pub open spec fn in_list_order(list: Seq<Seq<char>>, first: Seq<char>, second: Seq<char>) -> bool {
    exists|a: int, b: int|
        0 <= a < b < list.len() && #[trigger] list[a] == first && #[trigger] list[b] == second
}

/// Without a query the curated programs that are candidates are offered, all of them and no
/// others, in their own order.
pub proof fn curated_programs_are_offered_unasked(candidates: Seq<Seq<char>>)
    ensures
        ({
            let curated = CURATED@.map_values(|name: &str| name@);
            let offered = matches_of(Seq::<char>::empty(), candidates);
            &&& forall|name: Seq<char>| #[trigger]
                times(offered, name) == (if candidates.contains(name) {
                    times(curated, name)
                } else {
                    0
                })
            &&& forall|i: int, j: int|
                #![trigger offered[i], offered[j]]
                0 <= i < j < offered.len() ==> in_list_order(curated, offered[i], offered[j])
        }),
{
    let curated = curated_names();
    let keep = |name: Seq<char>| candidates.contains(name);
    let offered = matches_of(Seq::<char>::empty(), candidates);
    assert(curated == CURATED@.map_values(|name: &str| name@));
    assert forall|name: Seq<char>| #[trigger]
        times(offered, name) == (if candidates.contains(name) {
            times(curated, name)
        } else {
            0
        }) by {
        lemma_filter_times(curated, keep, name);
    }
    assert forall|i: int, j: int|
        #![trigger offered[i], offered[j]]
        0 <= i < j < offered.len() implies in_list_order(curated, offered[i], offered[j]) by {
        let (a, b) = lemma_filter_pair(curated, keep, i, j);
        assert(curated[a] == offered[i] && curated[b] == offered[j]);
    }
}

/// The curated programs, in their order, and how many programs are offered at most.
pub proof fn curated_programs_are_these()
    ensures
        CURATED@.len() == 6,
        CURATED@[0]@ == "nvim"@,
        CURATED@[1]@ == "vim"@,
        CURATED@[2]@ == "vi"@,
        CURATED@[3]@ == "nano"@,
        CURATED@[4]@ == "xdg-open"@,
        CURATED@[5]@ == "less"@,
        DISPLAY_LIMIT == 20,
{
}

/// The rows are the typed command, trimmed, if it is not blank, and then the programs offered for
/// it, all of them and in order.
pub proof fn rows_are_the_command_and_its_programs(query: Seq<char>, candidates: Seq<Seq<char>>)
    ensures
        ({
            let rows = rows_of(query, candidates);
            let programs = matches_of(trim(query), candidates);
            let first = if trim(query).len() > 0 {
                1int
            } else {
                0
            };
            &&& rows.len() == first + programs.len()
            &&& first == 1 ==> rows[0] == RowView::Custom(trim(query))
            &&& forall|i: int|
                0 <= i < programs.len() ==> rows[first + i] == RowView::Binary(
                    #[trigger] programs[i],
                )
        }),
        forall|text: Seq<char>| #[trigger] RowView::Custom(text).command() == text,
        forall|text: Seq<char>| #[trigger] RowView::Binary(text).command() == text,
{
}

/// A highlight within the rows stays where it is, and one past the end is on the last row.
pub proof fn highlights_are_moved_onto_the_rows(selected: nat, rows: nat)
    ensures
        selected < rows ==> clamped(selected, rows) == selected,
        0 < rows <= selected ==> clamped(selected, rows) == rows - 1,
        rows == 0 ==> clamped(selected, rows) == 0,
{
}

/// A new picker is empty, names its file and waits for the listing.
pub proof fn new_pickers_are_empty(target: Seq<u8>, generation: u64)
    ensures
        ({
            let p = PromptView::fresh(target, generation);
            &&& p.target == target
            &&& p.target_name == shown_name(target)
            &&& p.query.len() == 0
            &&& p.candidates.len() == 0
            &&& p.selected == 0
            &&& p.generation == generation
            &&& !p.listing_complete
            &&& p.listing_error is None
        }),
{
}

/// A listing gives the picker its candidates and leaves what was typed alone; the highlight stays
/// where it is as long as there is such a row.
pub proof fn listings_give_the_candidates(prompt: PromptView, names: Seq<Seq<char>>)
    ensures
        ({
            let after = prompt.with_candidates(names);
            &&& after.candidates == names
            &&& after.listing_complete
            &&& after.listing_error is None
            &&& after.query == prompt.query
            &&& after.target == prompt.target
            &&& after.target_name == prompt.target_name
            &&& after.generation == prompt.generation
            &&& prompt.selected < rows_of(prompt.query, names).len() ==> after.selected
                == prompt.selected
            &&& prompt.selected >= rows_of(prompt.query, names).len() ==> after.selected == (if rows_of(
                prompt.query,
                names,
            ).len() == 0 {
                0int
            } else {
                rows_of(prompt.query, names).len() - 1
            })
        }),
{
}

/// The press of a key.
pub open spec fn press(code: KeyCode, modifiers: KeyModifiers) -> KeyEvent {
    KeyEvent { code, modifiers, kind: KeyEventKind::Press }
}

/// Shift and nothing else.
pub open spec fn shift() -> KeyModifiers {
    KeyModifiers {
        shift: true,
        control: false,
        alt: false,
        super_key: false,
        hyper: false,
        meta: false,
    }
}

/// No modifier.
pub open spec fn bare() -> KeyModifiers {
    KeyModifiers {
        shift: false,
        control: false,
        alt: false,
        super_key: false,
        hyper: false,
        meta: false,
    }
}

/// A character is typed at the end of the query, with Shift or bare, unless it is one of the two
/// bare letters that move the highlight; Backspace takes it away again. Either puts the highlight
/// on the first row and does nothing else.
pub proof fn typing_and_backspace_undo_each_other(prompt: PromptView, c: char, shifted: bool)
    requires
        !shifted ==> c != 'j' && c != 'k',
    ensures
        ({
            let held = if shifted {
                shift()
            } else {
                bare()
            };
            let (typed, action) = picker_step(prompt, press(KeyCode::Char(c), held));
            let (back, second) = picker_step(typed, press(KeyCode::Backspace, bare()));
            &&& typed.query.len() == prompt.query.len() + 1
            &&& typed == (PromptView { query: prompt.query.push(c), selected: 0, ..prompt })
            &&& action == ActionView::Nothing
            &&& back == (PromptView { selected: 0, ..prompt })
            &&& second == ActionView::Nothing
        }),
        prompt.query.len() == 0 ==> picker_step(prompt, press(KeyCode::Backspace, bare())) == (
            PromptView { selected: 0, ..prompt },
            ActionView::Nothing,
        ),
{
    assert(prompt.query.push(c).drop_last() == prompt.query);
}

/// Control and `u` clear the query, whatever else is held.
pub proof fn control_u_clears_the_query(prompt: PromptView, held: KeyModifiers)
    requires
        held.control,
    ensures
        picker_step(prompt, press(KeyCode::Char('u'), held)) == (
            PromptView { query: Seq::empty(), selected: 0, ..prompt },
            ActionView::Nothing,
        ),
{
}

/// The highlight goes down and up by one row and stops at the last and at the first. Where there
/// is room, one undoes the other. Nothing else changes.
pub proof fn highlight_keys_move_by_one_row(prompt: PromptView, letters: bool)
    ensures
        ({
            let down = press(
                if letters {
                    KeyCode::Char('j')
                } else {
                    KeyCode::Down
                },
                bare(),
            );
            let up = press(
                if letters {
                    KeyCode::Char('k')
                } else {
                    KeyCode::Up
                },
                bare(),
            );
            let n = rows_of(prompt.query, prompt.candidates).len();
            let below = picker_step(prompt, down).0;
            let above = picker_step(prompt, up).0;
            &&& picker_step(prompt, down).1 == ActionView::Nothing
            &&& picker_step(prompt, up).1 == ActionView::Nothing
            &&& below == (PromptView { selected: below.selected, ..prompt })
            &&& above == (PromptView { selected: above.selected, ..prompt })
            &&& prompt.selected + 1 < n ==> below.selected == prompt.selected + 1
            &&& 0 < n <= prompt.selected + 1 ==> below.selected == n - 1
            &&& n == 0 ==> below.selected == prompt.selected
            &&& 0 < prompt.selected <= n ==> above.selected == prompt.selected - 1
            &&& prompt.selected == 0 ==> above.selected == 0
            &&& 0 < n < prompt.selected ==> above.selected == n - 1
            &&& n == 0 ==> above.selected == 0
            &&& prompt.selected + 1 < n ==> picker_step(below, up).0 == prompt
        }),
{
}

/// Escape closes the picker and Enter confirms it; neither changes it.
pub proof fn escape_closes_and_enter_confirms(prompt: PromptView)
    ensures
        picker_step(prompt, press(KeyCode::Esc, bare())) == (prompt, ActionView::Close),
        picker_step(prompt, press(KeyCode::Enter, bare())).0 == prompt,
        picker_step(prompt, press(KeyCode::Enter, bare())).1 == (match prompt.confirmed() {
            Ok(launch) => ActionView::Launch(launch),
            Err(error) => ActionView::Notice(error.message()),
        }),
{
}

/// Confirming launches the highlighted row on the file: the words of its command, in order, and
/// then the path. Without rows, or without a word, the command is empty.
pub proof fn confirming_launches_the_highlighted_row(prompt: PromptView)
    ensures
        ({
            let rows = rows_of(prompt.query, prompt.candidates);
            let at = if prompt.selected < rows.len() {
                prompt.selected as int
            } else {
                rows.len() - 1
            };
            let text = match rows[at] {
                RowView::Custom(text) => text,
                RowView::Binary(text) => text,
            };
            &&& rows.len() == 0 || words(text).len() == 0 ==> prompt.confirmed() == Err::<
                LaunchView,
                EditorError,
            >(EditorError::Empty)
            &&& rows.len() > 0 && words(text).len() > 0 ==> {
                &&& prompt.confirmed() matches Ok(launch)
                &&& seq![launch.program] + launch.args == words(text).map_values(
                    |word: Seq<char>| encode_utf8(word),
                ).push(prompt.target)
            }
        }),
{
    let rows = rows_of(prompt.query, prompt.candidates);
    if rows.len() > 0 {
        let at = if prompt.selected < rows.len() {
            prompt.selected as int
        } else {
            rows.len() - 1
        };
        let text = rows[at].command();
        if words(text).len() > 0 {
            let launch = prompt.confirmed()->Ok_0;
            assert(seq![launch.program] + launch.args =~= words(text).map_values(
                |word: Seq<char>| encode_utf8(word),
            ).push(prompt.target));
        }
    }
}

/// A key that is not pressed, or with any other modifier held, or that types nothing, does
/// nothing in the picker.
pub proof fn other_keys_do_nothing_in_the_picker(prompt: PromptView, key: KeyEvent)
    requires
        ({
            ||| key.kind != KeyEventKind::Press
            ||| key.modifiers != bare() && key.modifiers != shift() && !(key.modifiers.control
                && key.code == KeyCode::Char('u'))
            ||| key.modifiers == shift() && !(key.code is Char)
            ||| key.code == KeyCode::Other
        }),
    ensures
        picker_step(prompt, key) == (prompt, ActionView::Nothing),
{
}

/// A name enters the listing if and only if its file was found to be executable, it is neither
/// empty nor hidden nor listed yet, and there is room; it enters at the end and nothing ever
/// leaves.
pub proof fn runnable_new_names_are_listed(names: Seq<Seq<char>>, name: String, runnable: bool)
    ensures
        listing_step(names, ListingEvent::Examined { name, runnable }).0 == (if runnable
            && name@.len() > 0 && name@[0] != '.' && !names.contains(name@) && names.len() < 4096 {
            names.push(name@)
        } else {
            names
        }),
        listing_step(names, ListingEvent::Examined { name, runnable }).1
            == ListingAction::Continue,
{
}

/// An entry is examined if and only if it could be read, its name could enter the listing, and
/// there is room and interest left. Nothing enters the listing unexamined.
pub proof fn entries_are_examined_where_it_matters(
    names: Seq<Seq<char>>,
    name: String,
    cancelled: bool,
)
    ensures
        ({
            let (after, action) = listing_step(
                names,
                ListingEvent::Entry { read: Some(name), cancelled },
            );
            &&& after == names
            &&& action == (if cancelled || names.len() >= 4096 {
                ListingAction::LeaveDirectory
            } else if name@.len() > 0 && name@[0] != '.' && !names.contains(name@) {
                ListingAction::Examine
            } else {
                ListingAction::Continue
            })
        }),
        listing_step(names, ListingEvent::Entry { read: None, cancelled: false }) == (
            names,
            if names.len() >= 4096 {
                ListingAction::LeaveDirectory
            } else {
                ListingAction::Continue
            },
        ),
        listing_step(names, ListingEvent::Directory { cancelled }) == (
            names,
            if cancelled || names.len() >= 4096 {
                ListingAction::Stop
            } else {
                ListingAction::Continue
            },
        ),
{
}

/// A walk goes step by step: each event acts on what was listed before it.
pub proof fn listings_grow_step_by_step(events: Seq<ListingEvent>, event: ListingEvent)
    ensures
        listing_run(Seq::<ListingEvent>::empty()).len() == 0,
        listing_run(events.push(event)) == listing_step(listing_run(events), event).0,
        listing_run(events).is_prefix_of(listing_run(events.push(event))),
{
    assert(events.push(event).drop_last() == events);
}

} // verus!
