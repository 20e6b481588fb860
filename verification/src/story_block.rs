//! The detail of the selected item: its kind, counters, link and body.

use vstd::prelude::*;
use crate::json::json_members;
use crate::json::record_of;
use crate::record::int_or;
use crate::record::read_int;
use crate::record::read_text;
use crate::record::text_or;
use crate::record::DecodeError;
use crate::record::Field;
use crate::record::ItemRecord;
use crate::record::RecordView;
use crate::sanitize::sanitized;
use crate::sanitize::strip_tags;
use crate::text::decimal;
use crate::text::push_decimal;

verus! {

/// The kinds of item that have a detail view.
#[derive(Clone, Copy, Debug, PartialEq, Eq, Structural)]
pub enum StoryType {
    Job,
    Story,
    Poll,
}

/// The detail of one item, ready for display.
#[derive(Debug, PartialEq, Eq)]
pub struct StoryBlock {
    pub stype: StoryType,
    pub title: String,
    pub n_comments: i64,
    pub link: String,
    pub text: String,
    pub score: i64,
    pub author: String,
    pub focused: bool,
    pub scroll: u16,
}

/// Mathematical value of a `StoryBlock`.
pub ghost struct StoryBlockView {
    pub stype: StoryType,
    pub title: Seq<char>,
    pub n_comments: i64,
    pub link: Seq<char>,
    pub text: Seq<char>,
    pub score: i64,
    pub author: Seq<char>,
    pub focused: bool,
    pub scroll: u16,
}

impl View for StoryBlock {
    type V = StoryBlockView;

    open spec fn view(&self) -> StoryBlockView {
        StoryBlockView {
            stype: self.stype,
            title: self.title@,
            n_comments: self.n_comments,
            link: self.link@,
            text: self.text@,
            score: self.score,
            author: self.author@,
            focused: self.focused,
            scroll: self.scroll,
        }
    }
}

/// The kind a `type` value names, if it is one the reader shows.
pub open spec fn kind_named(name: Seq<char>) -> Option<StoryType> {
    if name == "job"@ {
        Some(StoryType::Job)
    } else if name == "story"@ {
        Some(StoryType::Story)
    } else if name == "poll"@ {
        Some(StoryType::Poll)
    } else {
        None
    }
}

/// The kind of a record: none where `type` is absent, not a string, or
/// names no kind the reader shows.
pub open spec fn record_kind(rec: RecordView) -> Option<StoryType> {
    match rec.kind {
        Field::Present(name) => kind_named(name),
        _ => None,
    }
}

/// The first of the keys a detail reads whose value is malformed, in the
/// order score, author, comment count, title, link, body.
pub open spec fn first_malformed(rec: RecordView) -> Option<DecodeError> {
    if rec.score is Malformed {
        Some(DecodeError::Score)
    } else if rec.author is Malformed {
        Some(DecodeError::Author)
    } else if rec.descendants is Malformed {
        Some(DecodeError::Descendants)
    } else if rec.title is Malformed {
        Some(DecodeError::Title)
    } else if rec.url is Malformed {
        Some(DecodeError::Link)
    } else if rec.text is Malformed {
        Some(DecodeError::Text)
    } else {
        None
    }
}

/// The detail a record decodes to: nothing for a record without a shown
/// kind, an error for the first malformed key, and otherwise every field
/// with its default where the key is absent, the body stripped of markup,
/// unfocused and scrolled to the top.
pub open spec fn detail(rec: RecordView) -> Result<Option<StoryBlockView>, DecodeError> {
    match record_kind(rec) {
        None => Ok(None),
        Some(stype) => match first_malformed(rec) {
            Some(e) => Err(e),
            None => Ok(
                Some(
                    StoryBlockView {
                        stype,
                        title: text_or(rec.title, ""@).unwrap(),
                        n_comments: int_or(rec.descendants, 0).unwrap(),
                        link: text_or(rec.url, "No Link"@).unwrap(),
                        text: sanitized(text_or(rec.text, "No Text"@).unwrap()),
                        score: int_or(rec.score, 0).unwrap(),
                        author: text_or(rec.author, "None"@).unwrap(),
                        focused: false,
                        scroll: 0,
                    },
                ),
            ),
        },
    }
}

/// The three texts of the info panel: the link line, the counters line and
/// the body.
pub open spec fn info_lines(b: StoryBlockView) -> Seq<Seq<char>> {
    seq![
        "Link: "@ + b.link + "\n"@,
        "Points : "@ + decimal(b.score as int) + " - Comments : "@ + decimal(b.n_comments as int)
            + " - Author: "@ + b.author + " \n"@,
        b.text,
    ]
}

fn same_text(s: &String, other: &str) -> (r: bool)
    ensures
        r == (s@ == other@),
{
    let o = String::from_str(other);
    *s == o
}

fn read_kind(f: &Field<String>) -> (r: Option<StoryType>)
    ensures
        r == match crate::record::text_view(*f) {
            Field::Present(name) => kind_named(name),
            _ => None,
        },
{
    match f {
        Field::Present(name) => {
            if same_text(name, "job") {
                Some(StoryType::Job)
            } else if same_text(name, "story") {
                Some(StoryType::Story)
            } else if same_text(name, "poll") {
                Some(StoryType::Poll)
            } else {
                None
            }
        },
        _ => None,
    }
}

impl StoryBlock {
    /// Decodes the detail of an item from its JSON object.
    pub fn new(item: &serde_json::Map<String, serde_json::Value>) -> (r: Result<
        Option<StoryBlock>,
        DecodeError,
    >)
        ensures
            r matches Ok(Some(b)) ==> detail(record_of(json_members(*item))) == Ok::<
                _,
                DecodeError,
            >(Some(b@)),
            r matches Ok(None) ==> detail(record_of(json_members(*item))) matches Ok(None),
            r matches Err(e) ==> detail(record_of(json_members(*item))) == Err::<
                Option<StoryBlockView>,
                _,
            >(e),
    {
        let record = ItemRecord::decode(item);
        StoryBlock::from_record(&record)
    }

    /// Decodes the detail of a record.
    pub fn from_record(item: &ItemRecord) -> (r: Result<Option<StoryBlock>, DecodeError>)
        ensures
            r matches Ok(Some(b)) ==> detail(item@) == Ok::<_, DecodeError>(Some(b@)),
            r matches Ok(None) ==> detail(item@) matches Ok(None),
            r matches Err(e) ==> detail(item@) == Err::<Option<StoryBlockView>, _>(e),
    {
        let stype = match read_kind(&item.kind) {
            Some(t) => t,
            None => {
                return Ok(None);
            },
        };
        let score = match read_int(&item.score, 0) {
            Some(n) => n,
            None => {
                return Err(DecodeError::Score);
            },
        };
        let author = match read_text(&item.author, "None") {
            Some(s) => s,
            None => {
                return Err(DecodeError::Author);
            },
        };
        let n_comments = match read_int(&item.descendants, 0) {
            Some(n) => n,
            None => {
                return Err(DecodeError::Descendants);
            },
        };
        let title = match read_text(&item.title, "") {
            Some(s) => s,
            None => {
                return Err(DecodeError::Title);
            },
        };
        let link = match read_text(&item.url, "No Link") {
            Some(s) => s,
            None => {
                return Err(DecodeError::Link);
            },
        };
        let text_raw = match read_text(&item.text, "No Text") {
            Some(s) => s,
            None => {
                return Err(DecodeError::Text);
            },
        };
        let text = strip_tags(text_raw.as_str());
        Ok(
            Some(
                StoryBlock {
                    stype,
                    title,
                    n_comments,
                    link,
                    text,
                    score,
                    author,
                    focused: false,
                    scroll: 0,
                },
            ),
        )
    }

    /// Scrolls one line down.
    pub fn scroll_down(&mut self)
        requires
            old(self).scroll < u16::MAX,
        ensures
            final(self)@ == (StoryBlockView { scroll: (old(self).scroll + 1) as u16, ..old(self)@ }),
    {
        self.scroll += 1
    }

    /// Scrolls one line up, staying at the top.
    pub fn scroll_up(&mut self)
        ensures
            final(self)@ == (StoryBlockView {
                scroll: if old(self).scroll > 0 {
                    (old(self).scroll - 1) as u16
                } else {
                    0
                },
                ..old(self)@
            }),
    {
        if self.scroll > 0 {
            self.scroll -= 1
        }
    }

    /// The three texts of the info panel.
    pub fn info(&self) -> (lines: Vec<String>)
        ensures
            lines@.len() == 3,
            forall|i: int| 0 <= i < 3 ==> (#[trigger] lines@[i])@ == info_lines(self@)[i],
    {
        let mut link_line = String::from_str("Link: ");
        link_line.append(self.link.as_str());
        link_line.append("\n");
        let mut counters = String::from_str("Points : ");
        push_decimal(&mut counters, self.score);
        counters.append(" - Comments : ");
        push_decimal(&mut counters, self.n_comments);
        counters.append(" - Author: ");
        counters.append(self.author.as_str());
        counters.append(" \n");
        let mut lines: Vec<String> = Vec::new();
        lines.push(link_line);
        lines.push(counters);
        lines.push(self.text.clone());
        lines
    }
}

} // verus!
