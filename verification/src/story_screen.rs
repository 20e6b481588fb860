//! One category on screen: its list, the detail and the discussion of the
//! selected item, and which of the three has the focus.

use vstd::prelude::*;
use crate::comment_block::Comment;
use crate::comment_block::CommentBlock;
use crate::comment_block::CommentBlockView;
use crate::comment_block::flatten_all;
use crate::comment_block::threads;
use crate::comment_block::Thread;
use crate::comment_tree::seedlings;
use crate::comment_tree::TreeBuilder;
use crate::hn_api::ListType;
use crate::record::DecodeError;
use crate::record::Field;
use crate::record::ItemRecord;
use crate::record::RecordView;
use crate::story_block::detail;
use crate::story_block::StoryBlock;
use crate::story_block::StoryBlockView;
use crate::story_list::record_views;
use crate::story_list::Advance;
use crate::story_list::ListError;
use crate::story_list::ListView;
use crate::story_list::StoryList;

verus! {

/// The panel that keys act on.
#[derive(Clone, Copy, Debug, PartialEq, Eq, Structural)]
pub enum Focus {
    List,
    Info,
    Comments,
}

/// Why a selection was not carried out.
#[derive(Clone, Copy, Debug, PartialEq, Eq, Structural)]
pub enum SelectError {
    /// No item is selected in the list.
    NoSelection,
    /// The selected record has a malformed key.
    Decode(DecodeError),
}

/// One category on screen.
#[derive(Debug)]
pub struct StoryScreen {
    story_list: StoryList,
    story_type: ListType,
    story_block: Option<StoryBlock>,
    comment_block: Option<CommentBlock>,
    focused: Focus,
}

/// Mathematical value of a `StoryScreen`.
pub ghost struct ScreenView {
    pub list: ListView,
    pub story_type: ListType,
    pub info: Option<StoryBlockView>,
    pub comments: Option<CommentBlockView>,
    pub focus: Focus,
}

/// A detail with its focus mark set to `focused`.
pub open spec fn info_marked(info: Option<StoryBlockView>, focused: bool) -> Option<
    StoryBlockView,
> {
    match info {
        Some(b) => Some(StoryBlockView { focused, ..b }),
        None => None,
    }
}

/// A discussion with its focus mark set to `focused`.
pub open spec fn comments_marked(comments: Option<CommentBlockView>, focused: bool) -> Option<
    CommentBlockView,
> {
    match comments {
        Some(c) => Some(CommentBlockView { focused, ..c }),
        None => None,
    }
}

impl ScreenView {
    /// The invariant of a screen: the list is well-formed, the focus is on
    /// a panel that exists, and exactly that panel is marked as focused.
    pub open spec fn well_formed(self) -> bool {
        &&& self.list.well_formed()
        &&& (self.focus is Info ==> self.info is Some)
        &&& (self.focus is Comments ==> self.comments is Some)
        &&& self.list.focused == (self.focus is List)
        &&& (self.info matches Some(b) ==> b.focused == (self.focus is Info))
        &&& (self.comments matches Some(c) ==> c.focused == (self.focus is Comments))
    }

    /// The screen with the focus on `focus` and every panel marked
    /// accordingly.
    pub open spec fn focused_on(self, focus: Focus) -> ScreenView {
        ScreenView {
            list: ListView { focused: focus is List, ..self.list },
            info: info_marked(self.info, focus is Info),
            comments: comments_marked(self.comments, focus is Comments),
            focus,
            ..self
        }
    }

    /// The panel the focus moves to: from the list to the detail where
    /// there is one, from the detail to the discussion where there is one,
    /// from the discussion to the list; else it stays.
    pub open spec fn next_focus(self) -> Focus {
        match self.focus {
            Focus::List => if self.info is Some {
                Focus::Info
            } else {
                Focus::List
            },
            Focus::Info => if self.comments is Some {
                Focus::Comments
            } else {
                Focus::Info
            },
            Focus::Comments => Focus::List,
        }
    }

    /// The screen after `down`: the list a step forward, or the focused
    /// panel a line further down.
    pub open spec fn lowered(self) -> ScreenView {
        match self.focus {
            Focus::List => ScreenView { list: self.list.advance(), ..self },
            Focus::Info => ScreenView {
                info: match self.info {
                    Some(b) => Some(StoryBlockView { scroll: (b.scroll + 1) as u16, ..b }),
                    None => None,
                },
                ..self
            },
            Focus::Comments => ScreenView {
                comments: match self.comments {
                    Some(c) => Some(CommentBlockView { scroll: (c.scroll + 1) as u16, ..c }),
                    None => None,
                },
                ..self
            },
        }
    }

    /// The screen after `up`: the list a step back, or the focused panel a
    /// line further up, never above its top.
    pub open spec fn raised(self) -> ScreenView {
        match self.focus {
            Focus::List => ScreenView { list: self.list.retreat(), ..self },
            Focus::Info => ScreenView {
                info: match self.info {
                    Some(b) => Some(
                        StoryBlockView {
                            scroll: if b.scroll > 0 {
                                (b.scroll - 1) as u16
                            } else {
                                0
                            },
                            ..b
                        },
                    ),
                    None => None,
                },
                ..self
            },
            Focus::Comments => ScreenView {
                comments: match self.comments {
                    Some(c) => Some(
                        CommentBlockView {
                            scroll: if c.scroll > 0 {
                                (c.scroll - 1) as u16
                            } else {
                                0
                            },
                            ..c
                        },
                    ),
                    None => None,
                },
                ..self
            },
        }
    }

    /// Whether a line can be scrolled down without leaving the range of
    /// the offset.
    pub open spec fn can_lower(self) -> bool {
        match self.focus {
            Focus::List => true,
            Focus::Info => self.info matches Some(b) ==> b.scroll < u16::MAX,
            Focus::Comments => self.comments matches Some(c) ==> c.scroll < u16::MAX,
        }
    }

    /// The record under the cursor.
    pub open spec fn selected_record(self) -> Option<RecordView> {
        match self.list.cursor {
            Some(c) => Some(self.list.items[c as int]),
            None => None,
        }
    }

    /// Why `select` fails, if it does: no item is selected, the detail of
    /// the selected record has a malformed key, or its list of replies is
    /// malformed.
    pub open spec fn select_error(self) -> Option<SelectError> {
        match self.selected_record() {
            None => Some(SelectError::NoSelection),
            Some(rec) => match detail(rec) {
                Err(e) => Some(SelectError::Decode(e)),
                Ok(info) => if rec.kids is Malformed {
                    Some(SelectError::Decode(DecodeError::Kids))
                } else {
                    None
                },
            },
        }
    }

    /// The ids of the top-level comments that `select` asks for: those of
    /// the selected record, if it lists any.
    pub open spec fn select_roots(self) -> Option<Seq<i64>> {
        match self.selected_record() {
            Some(rec) => match rec.kids {
                Field::Present(ids) => Some(ids),
                _ => None,
            },
            None => None,
        }
    }

    /// The screen after `select`: unchanged where it fails; else the detail
    /// of the selected record in place of the old one, no discussion, and
    /// the focus where it was, or on the list where its panel is gone.
    pub open spec fn selected(self) -> ScreenView {
        if self.select_error() is Some {
            self
        } else {
            let info = detail(self.selected_record()->0)->Ok_0;
            let focus = match self.focus {
                Focus::Info => if info is Some {
                    Focus::Info
                } else {
                    Focus::List
                },
                _ => Focus::List,
            };
            (ScreenView { info, comments: None, ..self }).focused_on(focus)
        }
    }

    /// The screen after `attach`: the discussion, flattened and scrolled to
    /// the top, in place of the old one.
    pub open spec fn attached(self, comments: Seq<Thread>) -> ScreenView {
        (ScreenView {
            comments: Some(
                CommentBlockView {
                    threads: comments,
                    lines: flatten_all(comments, 0),
                    focused: false,
                    scroll: 0,
                },
            ),
            ..self
        }).focused_on(self.focus)
    }
}

/// The value of a detail that may be absent.
pub open spec fn info_view(block: Option<StoryBlock>) -> Option<StoryBlockView> {
    match block {
        Some(b) => Some(b@),
        None => None,
    }
}

/// The value of a discussion that may be absent.
pub open spec fn comments_view(block: Option<CommentBlock>) -> Option<CommentBlockView> {
    match block {
        Some(c) => Some(c@),
        None => None,
    }
}

impl View for StoryScreen {
    type V = ScreenView;

    closed spec fn view(&self) -> ScreenView {
        ScreenView {
            list: self.story_list@,
            story_type: self.story_type,
            info: info_view(self.story_block),
            comments: comments_view(self.comment_block),
            focus: self.focused,
        }
    }
}

impl StoryScreen {
    /// A screen for a category and its list, with no item opened and the
    /// focus on the list.
    pub fn new(story_type: ListType, story_list: StoryList) -> (screen: StoryScreen)
        requires
            story_list@.well_formed(),
        ensures
            screen@ == (ScreenView {
                list: ListView { focused: true, ..story_list@ },
                story_type,
                info: None,
                comments: None,
                focus: Focus::List,
            }),
            screen@.well_formed(),
    {
        let mut story_list = story_list;
        story_list.set_focused(true);
        StoryScreen {
            story_list,
            story_type,
            story_block: None,
            comment_block: None,
            focused: Focus::List,
        }
    }

    fn mark(&mut self, focus: Focus)
        ensures
            final(self)@ == old(self)@.focused_on(focus),
    {
        self.story_list.set_focused(focus == Focus::List);
        match &mut self.story_block {
            Some(b) => {
                b.focused = focus == Focus::Info;
            },
            None => {},
        }
        match &mut self.comment_block {
            Some(c) => {
                c.focused = focus == Focus::Comments;
            },
            None => {},
        }
        self.focused = focus;
    }

    /// Moves the list a step forward, or scrolls the focused panel a line
    /// down. What the list asks of the caller is handed on.
    pub fn down(&mut self) -> (action: Advance)
        requires
            old(self)@.well_formed(),
            old(self)@.can_lower(),
        ensures
            final(self)@ == old(self)@.lowered(),
            action == if old(self)@.focus is List {
                old(self)@.list.request()
            } else {
                Advance::Moved
            },
            final(self)@.well_formed(),
    {
        match self.focused {
            Focus::List => self.story_list.next(),
            Focus::Info => {
                match &mut self.story_block {
                    Some(s) => s.scroll_down(),
                    None => {},
                }
                Advance::Moved
            },
            Focus::Comments => {
                match &mut self.comment_block {
                    Some(c) => c.scroll_down(),
                    None => {},
                }
                Advance::Moved
            },
        }
    }

    /// Moves the list a step back, or scrolls the focused panel a line up.
    pub fn up(&mut self)
        requires
            old(self)@.well_formed(),
        ensures
            final(self)@ == old(self)@.raised(),
            final(self)@.well_formed(),
    {
        match self.focused {
            Focus::List => self.story_list.previous(),
            Focus::Info => {
                match &mut self.story_block {
                    Some(s) => s.scroll_up(),
                    None => {},
                }
            },
            Focus::Comments => {
                match &mut self.comment_block {
                    Some(c) => c.scroll_up(),
                    None => {},
                }
            },
        }
    }

    /// Opens the selected item: decodes its detail and, where the record
    /// lists replies, hands out the builder of its discussion, which the
    /// caller drives and whose result it hands to `attach`.
    pub fn select(&mut self) -> (r: Result<Option<TreeBuilder>, SelectError>)
        requires
            old(self)@.well_formed(),
        ensures
            final(self)@ == old(self)@.selected(),
            final(self)@.well_formed(),
            r matches Err(e) ==> old(self)@.select_error() == Some(e),
            r matches Ok(b) ==> old(self)@.select_error() is None,
            r matches Ok(Some(builder)) ==> old(self)@.select_roots() matches Some(ids)
                && builder@ == seedlings(ids),
            r matches Ok(None) ==> old(self)@.select_roots() is None,
    {
        let (info, builder) = match self.story_list.selected_item() {
            None => {
                return Err(SelectError::NoSelection);
            },
            Some(item) => {
                let info = match StoryBlock::from_record(item) {
                    Ok(info) => info,
                    Err(e) => {
                        return Err(SelectError::Decode(e));
                    },
                };
                let builder = match &item.kids {
                    Field::Absent => None,
                    Field::Present(ids) => Some(TreeBuilder::new(ids)),
                    Field::Malformed => {
                        return Err(SelectError::Decode(DecodeError::Kids));
                    },
                };
                (info, builder)
            },
        };
        let focus = match self.focused {
            Focus::Info => if info.is_some() {
                Focus::Info
            } else {
                Focus::List
            },
            _ => Focus::List,
        };
        self.story_block = info;
        self.comment_block = None;
        self.mark(focus);
        Ok(builder)
    }

    /// Shows a finished discussion below the opened item.
    pub fn attach(&mut self, comments: Vec<Comment>)
        requires
            old(self)@.well_formed(),
        ensures
            final(self)@ == old(self)@.attached(threads(comments@)),
            final(self)@.well_formed(),
    {
        self.comment_block = Some(CommentBlock::new(comments));
        let focus = self.focused;
        self.mark(focus);
    }

    /// Moves the focus to the next panel that exists.
    pub fn focus(&mut self)
        requires
            old(self)@.well_formed(),
        ensures
            final(self)@ == old(self)@.focused_on(old(self)@.next_focus()),
            final(self)@.well_formed(),
    {
        let next = match self.focused {
            Focus::List => if self.story_block.is_some() {
                Focus::Info
            } else {
                Focus::List
            },
            Focus::Info => if self.comment_block.is_some() {
                Focus::Comments
            } else {
                Focus::Info
            },
            Focus::Comments => Focus::List,
        };
        self.mark(next);
    }

    /// The list of the category.
    pub fn story_list(&self) -> (list: &StoryList)
        ensures
            list@ == self@.list,
    {
        &self.story_list
    }

    /// The category.
    pub fn story_type(&self) -> (story_type: ListType)
        ensures
            story_type == self@.story_type,
    {
        self.story_type
    }

    /// The detail of the opened item.
    pub fn story_block(&self) -> (block: &Option<StoryBlock>)
        ensures
            info_view(*block) == self@.info,
    {
        &self.story_block
    }

    /// The discussion of the opened item.
    pub fn comment_block(&self) -> (block: &Option<CommentBlock>)
        ensures
            comments_view(*block) == self@.comments,
    {
        &self.comment_block
    }

    /// The panel that has the focus.
    pub fn focused(&self) -> (focus: Focus)
        ensures
            focus == self@.focus,
    {
        self.focused
    }

    /// Completes a step forward of the list with the batch it asked for.
    pub fn extend(&mut self, batch: Vec<ItemRecord>) -> (r: Result<(), ListError>)
        requires
            old(self)@.well_formed(),
        ensures
            final(self)@ == (ScreenView {
                list: old(self)@.list.supplied(record_views(batch@)),
                ..old(self)@
            }),
            r == match old(self)@.list.refusal(record_views(batch@)) {
                Some(e) => Err::<(), _>(e),
                None => Ok(()),
            },
            final(self)@.well_formed(),
    {
        self.story_list.extend(batch)
    }
}

} // verus!
