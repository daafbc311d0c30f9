//! Dialogues between speakers, grouped by topic.

use vstd::prelude::*;

use crate::text::same_text;

verus! {

/// One turn of a dialogue.
#[derive(Debug, Clone, PartialEq)]
pub struct Utterance {
    pub turn_num: u32,
    pub speaker: String,
    pub utterance: String,
}

/// A dialogue between speakers.
#[derive(Debug, Clone, PartialEq)]
pub struct Dialogue {
    pub topic_id: u32,
    pub topic_name: String,
    pub dialogue_id: u32,
    pub dialogue_length: u32,
    pub utterances: Vec<Utterance>,
}

/// A topic and the number of its dialogues.
#[derive(Debug, Clone, PartialEq)]
pub struct TopicSummary {
    pub topic_id: u32,
    pub topic_name: String,
    pub dialogue_count: usize,
}

/// One page of the dialogues of a topic.
#[derive(Debug, Clone, PartialEq)]
pub struct DialoguePage {
    /// The dialogues on this page.
    pub dialogues: Vec<Dialogue>,
    /// The number of dialogues on all pages together.
    pub total: usize,
    /// The number of this page, counted from 0.
    pub page: usize,
    /// The number of dialogues that a page holds at most.
    pub per_page: usize,
    /// The number of pages.
    pub total_pages: usize,
}

/// An `Utterance` as contracts see it.
pub struct UtteranceView {
    pub turn_num: u32,
    pub speaker: Seq<char>,
    pub utterance: Seq<char>,
}

/// A `Dialogue` as contracts see it.
pub struct DialogueView {
    pub topic_id: u32,
    pub topic_name: Seq<char>,
    pub dialogue_id: u32,
    pub dialogue_length: u32,
    pub utterances: Seq<UtteranceView>,
}

/// A `TopicSummary` as contracts see it.
pub struct TopicSummaryView {
    pub topic_id: u32,
    pub topic_name: Seq<char>,
    pub dialogue_count: usize,
}

/// A `DialoguePage` as contracts see it.
pub struct DialoguePageView {
    pub dialogues: Seq<DialogueView>,
    pub total: usize,
    pub page: usize,
    pub per_page: usize,
    pub total_pages: usize,
}

impl View for Utterance {
    type V = UtteranceView;

    open spec fn view(&self) -> UtteranceView {
        UtteranceView {
            turn_num: self.turn_num,
            speaker: self.speaker@,
            utterance: self.utterance@,
        }
    }
}

impl View for Dialogue {
    type V = DialogueView;

    open spec fn view(&self) -> DialogueView {
        DialogueView {
            topic_id: self.topic_id,
            topic_name: self.topic_name@,
            dialogue_id: self.dialogue_id,
            dialogue_length: self.dialogue_length,
            utterances: self.utterances@.map_values(|u: Utterance| u@),
        }
    }
}

impl View for TopicSummary {
    type V = TopicSummaryView;

    open spec fn view(&self) -> TopicSummaryView {
        TopicSummaryView {
            topic_id: self.topic_id,
            topic_name: self.topic_name@,
            dialogue_count: self.dialogue_count,
        }
    }
}

impl View for DialoguePage {
    type V = DialoguePageView;

    open spec fn view(&self) -> DialoguePageView {
        DialoguePageView {
            dialogues: views_of(self.dialogues@),
            total: self.total,
            page: self.page,
            per_page: self.per_page,
            total_pages: self.total_pages,
        }
    }
}

/// The views of a list of dialogues.
pub open spec fn views_of(dialogues: Seq<Dialogue>) -> Seq<DialogueView> {
    dialogues.map_values(|d: Dialogue| d@)
}

/// The Japanese name of a topic, or the name itself where the topic has none.
pub open spec fn japanese_name_of(topic_name: Seq<char>) -> Seq<char> {
    if topic_name == "Dailylife"@ {
        "日常生活"@
    } else if topic_name == "School"@ {
        "学校"@
    } else if topic_name == "Travel"@ {
        "旅行"@
    } else if topic_name == "Health"@ {
        "健康"@
    } else if topic_name == "Entertainment"@ {
        "エンターテインメント"@
    } else {
        topic_name
    }
}

/// The name of a topic in Japanese. A topic that is not known keeps its name.
pub fn topic_name_ja(topic_name: &str) -> (name: &str)
    ensures
        name@ == japanese_name_of(topic_name@),
{
    if same_text(topic_name, "Dailylife") {
        "日常生活"
    } else if same_text(topic_name, "School") {
        "学校"
    } else if same_text(topic_name, "Travel") {
        "旅行"
    } else if same_text(topic_name, "Health") {
        "健康"
    } else if same_text(topic_name, "Entertainment") {
        "エンターテインメント"
    } else {
        topic_name
    }
}

} // verus!
