//! Browsing a collection of dialogues: the topics with their counts, the
//! pages of one topic narrowed by a search text, and one dialogue by number.

use vstd::prelude::*;

use crate::alignment::{find_from, occurs_from};
use crate::dialogue::{
    views_of, Dialogue, DialoguePage, DialoguePageView, DialogueView, TopicSummary,
    TopicSummaryView,
};
use crate::text::chars_of;

verus! {

/// The page size that is used when none is asked for.
pub const DEFAULT_PAGE_SIZE: usize = 20;

/// The largest page size that is granted.
pub const MAX_PAGE_SIZE: usize = 100;

/// The number of page buttons that are shown at a time.
pub const WINDOW_PAGES: usize = 7;

/// The number of page buttons that are shown in front of the current page.
pub const WINDOW_LEAD: usize = 3;

/// The views of a list of topic summaries.
pub open spec fn summary_views(topics: Seq<TopicSummary>) -> Seq<TopicSummaryView> {
    topics.map_values(|t: TopicSummary| t@)
}

/// The number of dialogues of the topic `topic_id`.
pub open spec fn count_of_topic(dialogues: Seq<DialogueView>, topic_id: u32) -> nat {
    dialogues.filter(|d: DialogueView| d.topic_id == topic_id).len()
}

/// `i` is the position of the first dialogue of the topic `topic_id`.
pub open spec fn is_first_of_topic(dialogues: Seq<DialogueView>, topic_id: u32, i: int) -> bool {
    &&& 0 <= i < dialogues.len()
    &&& dialogues[i].topic_id == topic_id
    &&& forall|k: int| 0 <= k < i ==> (#[trigger] dialogues[k]).topic_id != topic_id
}

/// The summary counts the dialogues of its topic, of which there is at
/// least one, and carries the name that the first of them gives the topic.
pub open spec fn describes(dialogues: Seq<DialogueView>, topic: TopicSummaryView) -> bool {
    &&& topic.dialogue_count == count_of_topic(dialogues, topic.topic_id)
    &&& exists|f: int|
        is_first_of_topic(dialogues, topic.topic_id, f) && (#[trigger] dialogues[f]).topic_name
            == topic.topic_name
}

/// Whether one of the summaries is for the topic `topic_id`.
pub open spec fn has_topic(topics: Seq<TopicSummaryView>, topic_id: u32) -> bool {
    exists|i: int| 0 <= i < topics.len() && (#[trigger] topics[i]).topic_id == topic_id
}

/// `topics` is the summary of `dialogues`: one entry for each topic that
/// has a dialogue, in ascending order of the topic numbers.
pub open spec fn summarizes(dialogues: Seq<DialogueView>, topics: Seq<TopicSummaryView>) -> bool {
    &&& forall|i: int, j: int|
        0 <= i < j < topics.len() ==> (#[trigger] topics[i]).topic_id < (
        #[trigger] topics[j]).topic_id
    &&& forall|i: int| 0 <= i < topics.len() ==> describes(dialogues, #[trigger] topics[i])
    &&& forall|k: int|
        0 <= k < dialogues.len() ==> has_topic(topics, (#[trigger] dialogues[k]).topic_id)
}

/// Counting over one dialogue more adds one if that dialogue is of the topic.
pub proof fn lemma_count_step(dialogues: Seq<DialogueView>, topic_id: u32, k: int)
    requires
        0 <= k < dialogues.len(),
    ensures
        count_of_topic(dialogues.take(k), topic_id) <= k,
        count_of_topic(dialogues.take(k + 1), topic_id) == count_of_topic(
            dialogues.take(k),
            topic_id,
        ) + if dialogues[k].topic_id == topic_id {
            1int
        } else {
            0int
        },
{
    reveal(Seq::filter);
    assert(dialogues.take(k + 1).drop_last() =~= dialogues.take(k));
    dialogues.take(k).lemma_filter_len(|d: DialogueView| d.topic_id == topic_id);
}

/// Where no dialogue is of the topic, the count is 0.
pub proof fn lemma_count_none(dialogues: Seq<DialogueView>, topic_id: u32)
    requires
        forall|i: int| 0 <= i < dialogues.len() ==> (#[trigger] dialogues[i]).topic_id != topic_id,
    ensures
        count_of_topic(dialogues, topic_id) == 0,
    decreases dialogues.len(),
{
    reveal(Seq::filter);
    if dialogues.len() > 0 {
        lemma_count_none(dialogues.drop_last(), topic_id);
    }
}

/// A summary that describes its topic among the first `k` dialogues does so
/// among the first `k + 1` once dialogue `k` has been counted.
pub proof fn lemma_describes_step(dialogues: Seq<DialogueView>, topic: TopicSummaryView, k: int)
    requires
        0 <= k < dialogues.len() <= usize::MAX,
        describes(dialogues.take(k), topic),
    ensures
        dialogues[k].topic_id != topic.topic_id ==> describes(dialogues.take(k + 1), topic),
        dialogues[k].topic_id == topic.topic_id ==> topic.dialogue_count < usize::MAX && describes(
            dialogues.take(k + 1),
            counted_once_more(topic),
        ),
{
    lemma_count_step(dialogues, topic.topic_id, k);
    let before = dialogues.take(k);
    let after = dialogues.take(k + 1);
    let f = choose|f: int|
        is_first_of_topic(before, topic.topic_id, f) && (#[trigger] before[f]).topic_name
            == topic.topic_name;
    assert forall|i: int| 0 <= i < f implies (#[trigger] after[i]).topic_id != topic.topic_id by {
        assert(before[i].topic_id != topic.topic_id);
    }
    assert(is_first_of_topic(after, topic.topic_id, f));
}

/// The summary with one dialogue more.
pub open spec fn counted_once_more(topic: TopicSummaryView) -> TopicSummaryView {
    TopicSummaryView { dialogue_count: (topic.dialogue_count + 1) as usize, ..topic }
}

/// The summary of a topic whose first dialogue is `dialogue`.
pub open spec fn first_summary(dialogue: DialogueView) -> TopicSummaryView {
    TopicSummaryView {
        topic_id: dialogue.topic_id,
        topic_name: dialogue.topic_name,
        dialogue_count: 1,
    }
}

/// Where the topic of dialogue `k` has its summary at `slot`, counting the
/// dialogue there gives the summary of the first `k + 1` dialogues.
pub proof fn lemma_summary_counted(
    all: Seq<DialogueView>,
    topics: Seq<TopicSummaryView>,
    k: int,
    slot: int,
)
    requires
        0 <= k < all.len() <= usize::MAX,
        summarizes(all.take(k), topics),
        0 <= slot < topics.len(),
        topics[slot].topic_id == all[k].topic_id,
    ensures
        topics[slot].dialogue_count < usize::MAX,
        summarizes(all.take(k + 1), topics.update(slot, counted_once_more(topics[slot]))),
{
    let seen = all.take(k);
    let next = all.take(k + 1);
    let after = topics.update(slot, counted_once_more(topics[slot]));
    lemma_describes_step(all, topics[slot], k);
    assert forall|i: int| 0 <= i < after.len() implies describes(next, #[trigger] after[i]) by {
        lemma_describes_step(all, topics[i], k);
        if i < slot {
            assert(topics[i].topic_id < topics[slot].topic_id);
        } else if i > slot {
            assert(topics[slot].topic_id < topics[i].topic_id);
        }
    }
    assert forall|m: int| 0 <= m < next.len() implies has_topic(
        after,
        (#[trigger] next[m]).topic_id,
    ) by {
        if m < k {
            assert(has_topic(topics, seen[m].topic_id));
            let w = choose|w: int|
                0 <= w < topics.len() && (#[trigger] topics[w]).topic_id == seen[m].topic_id;
            assert(after[w].topic_id == next[m].topic_id);
        } else {
            assert(after[slot].topic_id == next[m].topic_id);
        }
    }
}

/// Where the topic of dialogue `k` has no summary and `slot` is where its
/// number belongs, putting the first summary of the topic there gives the
/// summary of the first `k + 1` dialogues.
pub proof fn lemma_summary_added(
    all: Seq<DialogueView>,
    topics: Seq<TopicSummaryView>,
    k: int,
    slot: int,
)
    requires
        0 <= k < all.len() <= usize::MAX,
        summarizes(all.take(k), topics),
        0 <= slot <= topics.len(),
        forall|i: int| 0 <= i < slot ==> (#[trigger] topics[i]).topic_id < all[k].topic_id,
        slot < topics.len() ==> topics[slot].topic_id > all[k].topic_id,
    ensures
        summarizes(all.take(k + 1), topics.insert(slot, first_summary(all[k]))),
{
    let topic_id = all[k].topic_id;
    let seen = all.take(k);
    let next = all.take(k + 1);
    let after = topics.insert(slot, first_summary(all[k]));
    assert forall|i: int| 0 <= i < topics.len() implies (#[trigger] topics[i]).topic_id
        != topic_id by {
        if i > slot {
            assert(topics[slot].topic_id < topics[i].topic_id);
        }
    }
    assert forall|m: int| 0 <= m < seen.len() implies (#[trigger] seen[m]).topic_id
        != topic_id by {
        assert(has_topic(topics, seen[m].topic_id));
    }
    lemma_count_none(seen, topic_id);
    lemma_count_step(all, topic_id, k);
    assert(is_first_of_topic(next, topic_id, k));
    assert forall|i: int| 0 <= i < after.len() implies describes(next, #[trigger] after[i]) by {
        if i < slot {
            lemma_describes_step(all, topics[i], k);
        } else if i > slot {
            lemma_describes_step(all, topics[i - 1], k);
        }
    }
    assert forall|i: int, j: int| 0 <= i < j < after.len() implies (#[trigger] after[i]).topic_id
        < (#[trigger] after[j]).topic_id by {
        if i < slot && j > slot {
            assert(topics[i].topic_id < topics[j - 1].topic_id);
        } else if i < slot && j < slot {
            assert(topics[i].topic_id < topics[j].topic_id);
        } else if i > slot {
            assert(topics[i - 1].topic_id < topics[j - 1].topic_id);
        } else if i == slot && slot < j - 1 {
            assert(topics[slot].topic_id < topics[j - 1].topic_id);
        }
    }
    assert forall|m: int| 0 <= m < next.len() implies has_topic(
        after,
        (#[trigger] next[m]).topic_id,
    ) by {
        if m < k {
            assert(has_topic(topics, seen[m].topic_id));
            let w = choose|w: int|
                0 <= w < topics.len() && (#[trigger] topics[w]).topic_id == seen[m].topic_id;
            let shifted = if w < slot {
                w
            } else {
                w + 1
            };
            assert(after[shifted].topic_id == next[m].topic_id);
        } else {
            assert(after[slot].topic_id == next[m].topic_id);
        }
    }
}

/// The position of the first summary whose topic number is not below
/// `topic_id`.
fn slot_of(topics: &Vec<TopicSummary>, topic_id: u32) -> (slot: usize)
    ensures
        slot <= topics@.len(),
        forall|i: int| 0 <= i < slot ==> (#[trigger] topics@[i]).topic_id < topic_id,
        slot < topics@.len() ==> topics@[slot as int].topic_id >= topic_id,
{
    let n = topics.len();
    let mut slot: usize = 0;
    while slot < n && topics[slot].topic_id < topic_id
        invariant
            n == topics@.len(),
            slot <= n,
            forall|i: int| 0 <= i < slot ==> (#[trigger] topics@[i]).topic_id < topic_id,
        decreases n - slot,
    {
        slot += 1;
    }
    slot
}

/// The topics of the dialogues, each with the number of its dialogues and
/// the name that its first dialogue gives it, in ascending order of the
/// topic numbers.
pub fn topic_summaries(dialogues: &[Dialogue]) -> (topics: Vec<TopicSummary>)
    ensures
        summarizes(views_of(dialogues@), summary_views(topics@)),
{
    let ghost all = views_of(dialogues@);
    let n = dialogues.len();
    let mut topics: Vec<TopicSummary> = Vec::new();
    let mut k: usize = 0;
    while k < n
        invariant
            n == dialogues@.len(),
            all == views_of(dialogues@),
            k <= n,
            summarizes(all.take(k as int), summary_views(topics@)),
        decreases n - k,
    {
        let dialogue = &dialogues[k];
        let slot = slot_of(&topics, dialogue.topic_id);
        let ghost before = summary_views(topics@);
        if slot < topics.len() && topics[slot].topic_id == dialogue.topic_id {
            proof {
                lemma_summary_counted(all, before, k as int, slot as int);
            }
            let known = &topics[slot];
            let counted = TopicSummary {
                topic_id: known.topic_id,
                topic_name: known.topic_name.clone(),
                dialogue_count: known.dialogue_count + 1,
            };
            topics.set(slot, counted);
            assert(summary_views(topics@) =~= before.update(
                slot as int,
                counted_once_more(before[slot as int]),
            ));
        } else {
            proof {
                lemma_summary_added(all, before, k as int, slot as int);
            }
            let added = TopicSummary {
                topic_id: dialogue.topic_id,
                topic_name: dialogue.topic_name.clone(),
                dialogue_count: 1,
            };
            topics.insert(slot, added);
            assert(summary_views(topics@) =~= before.insert(slot as int, first_summary(all[k as int])));
        }
        k += 1;
    }
    assert(all.take(n as int) =~= all);
    topics
}

/// The page size that is granted to a request for `per_page` dialogues.
pub open spec fn page_size(per_page: int) -> int {
    if per_page == 0 {
        DEFAULT_PAGE_SIZE as int
    } else if per_page > MAX_PAGE_SIZE {
        MAX_PAGE_SIZE as int
    } else {
        per_page
    }
}

/// The number of pages of `size` dialogues that `total` dialogues fill.
pub open spec fn page_count(total: int, size: int) -> int {
    (total + size - 1) / size
}

/// The page that is shown to a request for page `page`: the last page where
/// there are fewer pages, page 0 where there is none.
pub open spec fn page_shown(page: int, pages: int) -> int {
    if pages == 0 {
        0
    } else if page > pages - 1 {
        pages - 1
    } else {
        page
    }
}

/// Whether some utterance of the dialogue holds `search` as a run of code
/// points.
pub open spec fn mentions(dialogue: DialogueView, search: Seq<char>) -> bool {
    exists|u: int|
        0 <= u < dialogue.utterances.len() && occurs_from(
            (#[trigger] dialogue.utterances[u]).utterance,
            search,
            0,
        )
}

/// Whether a dialogue belongs to the topic and matches the search text. An
/// empty search text matches every dialogue.
pub open spec fn selected(dialogue: DialogueView, topic_id: u32, search: Seq<char>) -> bool {
    dialogue.topic_id == topic_id && (search.len() == 0 || mentions(dialogue, search))
}

/// The dialogues of the topic that match the search text, in their order.
pub open spec fn selection(dialogues: Seq<DialogueView>, topic_id: u32, search: Seq<char>) -> Seq<
    DialogueView,
> {
    dialogues.filter(|d: DialogueView| selected(d, topic_id, search))
}

/// The page that `page_of_topic` returns.
pub open spec fn page_of(
    dialogues: Seq<DialogueView>,
    topic_id: u32,
    page: int,
    per_page: int,
    search: Seq<char>,
) -> DialoguePageView {
    let chosen = selection(dialogues, topic_id, search);
    let size = page_size(per_page);
    let pages = page_count(chosen.len() as int, size);
    let shown = page_shown(page, pages);
    let start = shown * size;
    let end = if start + size < chosen.len() {
        start + size
    } else {
        chosen.len() as int
    };
    DialoguePageView {
        dialogues: chosen.subrange(start, end),
        total: chosen.len() as usize,
        page: shown as usize,
        per_page: size as usize,
        total_pages: pages as usize,
    }
}

/// Selecting from one dialogue more appends that dialogue if it is selected.
pub proof fn lemma_selection_step(
    dialogues: Seq<DialogueView>,
    topic_id: u32,
    search: Seq<char>,
    i: int,
)
    requires
        0 <= i < dialogues.len(),
    ensures
        selection(dialogues.take(i + 1), topic_id, search) == if selected(
            dialogues[i],
            topic_id,
            search,
        ) {
            selection(dialogues.take(i), topic_id, search).push(dialogues[i])
        } else {
            selection(dialogues.take(i), topic_id, search)
        },
{
    reveal(Seq::filter);
    assert(dialogues.take(i + 1).drop_last() =~= dialogues.take(i));
}

/// Whether some utterance of the dialogue holds `search`.
fn mentions_text(dialogue: &Dialogue, search: &[char]) -> (found: bool)
    ensures
        found == mentions(dialogue@, search@),
{
    let n = dialogue.utterances.len();
    let mut i: usize = 0;
    while i < n
        invariant
            n == dialogue@.utterances.len(),
            i <= n,
            forall|u: int|
                0 <= u < i ==> !occurs_from(
                    (#[trigger] dialogue@.utterances[u]).utterance,
                    search@,
                    0,
                ),
        decreases n - i,
    {
        let text = chars_of(dialogue.utterances[i].utterance.as_str());
        assert(text@ == dialogue@.utterances[i as int].utterance);
        if find_from(text.as_slice(), search, 0).is_some() {
            return true;
        }
        i += 1;
    }
    false
}

/// Whether a dialogue belongs to the topic and matches the search text.
fn is_selected(dialogue: &Dialogue, topic_id: u32, search: &[char]) -> (chosen: bool)
    ensures
        chosen == selected(dialogue@, topic_id, search@),
{
    dialogue.topic_id == topic_id && (search.len() == 0 || mentions_text(dialogue, search))
}

/// One page of the dialogues of a topic that match a search text.
///
/// A page holds `per_page` dialogues, 20 where 0 is asked for and never
/// more than 100. A dialogue matches when one of its utterances holds the
/// search text; an empty search text matches all. A page number behind the
/// last page gives the last page.
pub fn page_of_topic(
    dialogues: Vec<Dialogue>,
    topic_id: u32,
    page: usize,
    per_page: usize,
    search: &str,
) -> (result: DialoguePage)
    ensures
        result@ == page_of(views_of(dialogues@), topic_id, page as int, per_page as int, search@),
{
    let ghost all = views_of(dialogues@);
    let size = if per_page == 0 {
        DEFAULT_PAGE_SIZE
    } else if per_page > MAX_PAGE_SIZE {
        MAX_PAGE_SIZE
    } else {
        per_page
    };
    let search_chars = chars_of(search);
    let mut chosen: Vec<Dialogue> = Vec::new();
    for dialogue in it: dialogues
        invariant
            it.seq() == dialogues@,
            all == views_of(dialogues@),
            search_chars@ == search@,
            views_of(chosen@) == selection(all.take(it.index() as int), topic_id, search@),
    {
        proof {
            lemma_selection_step(all, topic_id, search@, it.index() as int);
        }
        if is_selected(&dialogue, topic_id, search_chars.as_slice()) {
            chosen.push(dialogue);
        }
    }
    assert(all.take(dialogues@.len() as int) =~= all);
    let ghost picked = views_of(chosen@);
    let total = chosen.len();
    assert(total % size != 0 ==> total / size < total) by (nonlinear_arith)
        requires
            0 < size,
            0 <= total,
    ;
    let total_pages = if total % size == 0 {
        total / size
    } else {
        total / size + 1
    };
    assert(total_pages == page_count(total as int, size as int)) by (nonlinear_arith)
        requires
            0 < size,
            0 <= total,
            total_pages == total / size + if total % size == 0 {
                0int
            } else {
                1int
            },
    ;
    let shown = if total_pages == 0 {
        0
    } else if page > total_pages - 1 {
        total_pages - 1
    } else {
        page
    };
    assert(shown * size <= total) by (nonlinear_arith)
        requires
            0 < size,
            0 <= shown,
            total_pages == 0 ==> shown == 0,
            total_pages > 0 ==> shown <= total_pages - 1,
            total_pages == (total + size - 1) / (size as int),
    ;
    let start = shown * size;
    let mut on_page = chosen.split_off(start);
    on_page.truncate(size);
    assert(views_of(on_page@) =~= picked.subrange(
        start as int,
        if start + size < picked.len() {
            start + size
        } else {
            picked.len() as int
        },
    ));
    DialoguePage { dialogues: on_page, total, page: shown, per_page: size, total_pages }
}

/// `i` is the position of the first dialogue with the number `dialogue_id`.
pub open spec fn is_first_with_id(dialogues: Seq<DialogueView>, dialogue_id: u32, i: int) -> bool {
    &&& 0 <= i < dialogues.len()
    &&& dialogues[i].dialogue_id == dialogue_id
    &&& forall|k: int| 0 <= k < i ==> (#[trigger] dialogues[k]).dialogue_id != dialogue_id
}

/// The first dialogue with the number `dialogue_id`, or `None` where no
/// dialogue has that number.
pub fn find_dialogue(dialogues: Vec<Dialogue>, dialogue_id: u32) -> (found: Option<Dialogue>)
    ensures
        match found {
            Some(dialogue) => exists|i: int|
                is_first_with_id(views_of(dialogues@), dialogue_id, i) && dialogues@[i]
                    == dialogue,
            None => forall|i: int|
                0 <= i < dialogues@.len() ==> (#[trigger] dialogues@[i]).dialogue_id
                    != dialogue_id,
        },
{
    for dialogue in it: dialogues
        invariant
            it.seq() == dialogues@,
            forall|k: int|
                0 <= k < it.index() ==> (#[trigger] dialogues@[k]).dialogue_id != dialogue_id,
    {
        if dialogue.dialogue_id == dialogue_id {
            assert(is_first_with_id(views_of(dialogues@), dialogue_id, it.index() as int));
            return Some(dialogue);
        }
    }
    None
}

/// The first page of the window of page buttons round the page `current`.
pub open spec fn window_start(current: int, total_pages: int) -> int {
    let lead = if current < WINDOW_LEAD {
        0
    } else {
        current - WINDOW_LEAD
    };
    let back = if window_end(current, total_pages) < WINDOW_PAGES {
        0
    } else {
        window_end(current, total_pages) - WINDOW_PAGES
    };
    if back < lead {
        back
    } else {
        lead
    }
}

/// The page behind the last page of the window round the page `current`.
pub open spec fn window_end(current: int, total_pages: int) -> int {
    let lead = if current < WINDOW_LEAD {
        0
    } else {
        current - WINDOW_LEAD
    };
    if lead + WINDOW_PAGES < total_pages {
        lead + WINDOW_PAGES
    } else {
        total_pages
    }
}

/// The pages `start..end` for which buttons are shown round the page
/// `current`: up to seven, three of them in front of the current page where
/// there are that many, and more in front where fewer follow.
pub fn page_window(current: usize, total_pages: usize) -> (window: (usize, usize))
    ensures
        window.0 == window_start(current as int, total_pages as int),
        window.1 == window_end(current as int, total_pages as int),
{
    let lead = current.saturating_sub(WINDOW_LEAD);
    let reach = lead.saturating_add(WINDOW_PAGES);
    let end = if reach < total_pages {
        reach
    } else {
        total_pages
    };
    let back = end.saturating_sub(WINDOW_PAGES);
    let start = if back < lead {
        back
    } else {
        lead
    };
    (start, end)
}

} // verus!
