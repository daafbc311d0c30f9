use kumou_japanese::catalog::{find_dialogue, page_of_topic, page_window, topic_summaries};
use kumou_japanese::dialogue::{topic_name_ja, Dialogue, TopicSummary, Utterance};

fn dialogue(topic_id: u32, topic_name: &str, dialogue_id: u32, lines: &[&str]) -> Dialogue {
    let utterances: Vec<Utterance> = lines
        .iter()
        .enumerate()
        .map(|(turn, line)| Utterance {
            turn_num: turn as u32,
            speaker: if turn % 2 == 0 { "A".to_string() } else { "B".to_string() },
            utterance: line.to_string(),
        })
        .collect();
    Dialogue {
        topic_id,
        topic_name: topic_name.to_string(),
        dialogue_id,
        dialogue_length: lines.len() as u32,
        utterances,
    }
}

fn corpus() -> Vec<Dialogue> {
    vec![
        dialogue(2, "School", 10, &["宿題は終わった?", "まだです。"]),
        dialogue(1, "Dailylife", 11, &["今日は晴れですね。", "そうですね。"]),
        dialogue(2, "School", 12, &["明日は試験です。"]),
        dialogue(3, "Travel", 13, &["京都へ行きたい。", "いいですね。"]),
        dialogue(1, "Dailylife", 14, &["お腹がすいた。"]),
        dialogue(2, "Gakkou", 15, &[]),
    ]
}

fn numbered(topic_id: u32, count: u32) -> Vec<Dialogue> {
    (0..count).map(|n| dialogue(topic_id, "Health", n, &["元気ですか。"])).collect()
}

fn ids(dialogues: &[Dialogue]) -> Vec<u32> {
    dialogues.iter().map(|d| d.dialogue_id).collect()
}

#[test]
fn topics_are_counted_and_sorted() {
    assert_eq!(
        topic_summaries(&corpus()),
        vec![
            TopicSummary { topic_id: 1, topic_name: "Dailylife".to_string(), dialogue_count: 2 },
            TopicSummary { topic_id: 2, topic_name: "School".to_string(), dialogue_count: 3 },
            TopicSummary { topic_id: 3, topic_name: "Travel".to_string(), dialogue_count: 1 },
        ]
    );
}

#[test]
fn no_dialogues_no_topics() {
    assert_eq!(topic_summaries(&[]), vec![]);
}

#[test]
fn topic_takes_the_name_of_its_first_dialogue() {
    let dialogues = vec![
        dialogue(9, "Later", 1, &[]),
        dialogue(4, "First", 2, &[]),
        dialogue(4, "Second", 3, &[]),
        dialogue(9, "Other", 4, &[]),
        dialogue(0, "Zero", 5, &[]),
    ];
    let topics = topic_summaries(&dialogues);
    assert_eq!(topics.len(), 3);
    assert_eq!((topics[0].topic_id, topics[0].topic_name.as_str(), topics[0].dialogue_count), (0, "Zero", 1));
    assert_eq!((topics[1].topic_id, topics[1].topic_name.as_str(), topics[1].dialogue_count), (4, "First", 2));
    assert_eq!((topics[2].topic_id, topics[2].topic_name.as_str(), topics[2].dialogue_count), (9, "Later", 2));
}

#[test]
fn page_holds_the_dialogues_of_the_topic() {
    let page = page_of_topic(corpus(), 2, 0, 20, "");
    assert_eq!(ids(&page.dialogues), vec![10, 12, 15]);
    assert_eq!(page.total, 3);
    assert_eq!(page.page, 0);
    assert_eq!(page.per_page, 20);
    assert_eq!(page.total_pages, 1);
    assert_eq!(page.dialogues[0], corpus()[0]);
}

#[test]
fn page_size_defaults_and_is_capped() {
    assert_eq!(page_of_topic(numbered(5, 150), 5, 0, 0, "").per_page, 20);
    assert_eq!(page_of_topic(numbered(5, 150), 5, 0, 0, "").dialogues.len(), 20);
    assert_eq!(page_of_topic(numbered(5, 150), 5, 0, 0, "").total_pages, 8);
    assert_eq!(page_of_topic(numbered(5, 150), 5, 0, 100, "").per_page, 100);
    assert_eq!(page_of_topic(numbered(5, 150), 5, 0, 101, "").per_page, 100);
    assert_eq!(page_of_topic(numbered(5, 150), 5, 0, usize::MAX, "").dialogues.len(), 100);
    assert_eq!(page_of_topic(numbered(5, 150), 5, 0, usize::MAX, "").total_pages, 2);
    assert_eq!(page_of_topic(numbered(5, 150), 5, 0, 1, "").total_pages, 150);
    assert_eq!(page_of_topic(numbered(5, 150), 5, 0, 7, "").per_page, 7);
}

#[test]
fn pages_follow_one_another() {
    let page = page_of_topic(numbered(5, 45), 5, 1, 20, "");
    assert_eq!(ids(&page.dialogues), (20..40).collect::<Vec<u32>>());
    assert_eq!((page.total, page.page, page.per_page, page.total_pages), (45, 1, 20, 3));
    let page = page_of_topic(numbered(5, 45), 5, 2, 20, "");
    assert_eq!(ids(&page.dialogues), (40..45).collect::<Vec<u32>>());
    assert_eq!((page.total, page.page, page.per_page, page.total_pages), (45, 2, 20, 3));
    let page = page_of_topic(numbered(5, 40), 5, 1, 20, "");
    assert_eq!(ids(&page.dialogues), (20..40).collect::<Vec<u32>>());
    assert_eq!(page.total_pages, 2);
}

#[test]
fn page_behind_the_last_gives_the_last() {
    let page = page_of_topic(numbered(5, 45), 5, 3, 20, "");
    assert_eq!((page.page, page.dialogues.len()), (2, 5));
    let page = page_of_topic(numbered(5, 45), 5, usize::MAX, 20, "");
    assert_eq!((page.page, page.dialogues.len()), (2, 5));
}

#[test]
fn topic_without_dialogues_gives_an_empty_page() {
    let page = page_of_topic(corpus(), 77, 4, 20, "");
    assert!(page.dialogues.is_empty());
    assert_eq!((page.total, page.page, page.per_page, page.total_pages), (0, 0, 20, 0));
    let page = page_of_topic(vec![], 1, 0, 0, "x");
    assert!(page.dialogues.is_empty());
    assert_eq!((page.total, page.page, page.per_page, page.total_pages), (0, 0, 20, 0));
}

#[test]
fn search_narrows_the_topic() {
    let page = page_of_topic(corpus(), 2, 0, 20, "試験");
    assert_eq!(ids(&page.dialogues), vec![12]);
    assert_eq!((page.total, page.total_pages), (1, 1));
    let page = page_of_topic(corpus(), 2, 0, 20, "です");
    assert_eq!(ids(&page.dialogues), vec![10, 12]);
    let page = page_of_topic(corpus(), 1, 0, 20, "です");
    assert_eq!(ids(&page.dialogues), vec![11]);
    let page = page_of_topic(corpus(), 1, 0, 20, "京都");
    assert!(page.dialogues.is_empty());
    assert_eq!((page.total, page.total_pages), (0, 0));
}

#[test]
fn search_text_must_stand_in_one_utterance() {
    // the end of one utterance and the beginning of the next do not count
    let page = page_of_topic(corpus(), 1, 0, 20, "。そう");
    assert!(page.dialogues.is_empty());
    let page = page_of_topic(corpus(), 1, 0, 20, "晴れですね。");
    assert_eq!(ids(&page.dialogues), vec![11]);
}

#[test]
fn empty_search_keeps_dialogues_without_utterances() {
    assert_eq!(ids(&page_of_topic(corpus(), 2, 0, 20, "").dialogues), vec![10, 12, 15]);
    assert_eq!(ids(&page_of_topic(corpus(), 2, 0, 20, "。").dialogues), vec![10, 12]);
}

#[test]
fn dialogue_is_found_by_number() {
    assert_eq!(find_dialogue(corpus(), 13), Some(corpus()[3].clone()));
    assert_eq!(find_dialogue(corpus(), 10), Some(corpus()[0].clone()));
    assert_eq!(find_dialogue(corpus(), 99), None);
    assert_eq!(find_dialogue(vec![], 0), None);
}

#[test]
fn first_dialogue_with_the_number_is_taken() {
    let dialogues = vec![dialogue(1, "a", 5, &["first"]), dialogue(2, "b", 5, &["second"])];
    assert_eq!(find_dialogue(dialogues, 5).map(|d| d.topic_id), Some(1));
}

#[test]
fn window_shows_seven_pages_round_the_current() {
    assert_eq!(page_window(0, 20), (0, 7));
    assert_eq!(page_window(3, 20), (0, 7));
    assert_eq!(page_window(4, 20), (1, 8));
    assert_eq!(page_window(10, 20), (7, 14));
}

#[test]
fn window_moves_back_at_the_end() {
    assert_eq!(page_window(19, 20), (13, 20));
    assert_eq!(page_window(17, 20), (13, 20));
    assert_eq!(page_window(16, 20), (13, 20));
    assert_eq!(page_window(15, 20), (12, 19));
}

#[test]
fn window_of_few_pages() {
    assert_eq!(page_window(0, 0), (0, 0));
    assert_eq!(page_window(0, 1), (0, 1));
    assert_eq!(page_window(2, 3), (0, 3));
    assert_eq!(page_window(6, 7), (0, 7));
    assert_eq!(page_window(7, 8), (1, 8));
}

#[test]
fn window_of_a_page_that_does_not_exist() {
    assert_eq!(page_window(50, 20), (13, 20));
    assert_eq!(page_window(usize::MAX, 20), (13, 20));
    assert_eq!(page_window(usize::MAX, usize::MAX), (usize::MAX - 7, usize::MAX));
}

#[test]
fn topics_have_japanese_names() {
    assert_eq!(topic_name_ja("Dailylife"), "日常生活");
    assert_eq!(topic_name_ja("School"), "学校");
    assert_eq!(topic_name_ja("Travel"), "旅行");
    assert_eq!(topic_name_ja("Health"), "健康");
    assert_eq!(topic_name_ja("Entertainment"), "エンターテインメント");
}

#[test]
fn unknown_topic_keeps_its_name() {
    assert_eq!(topic_name_ja("Sports"), "Sports");
    assert_eq!(topic_name_ja(""), "");
    assert_eq!(topic_name_ja("school"), "school");
    assert_eq!(topic_name_ja("Schools"), "Schools");
    assert_eq!(topic_name_ja("学校"), "学校");
}
