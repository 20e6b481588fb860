//! The list of one category: every id of the category, the growing prefix
//! of loaded items with their title lines, and the selection cursor.

use vstd::prelude::*;
use crate::record::int_or;
use crate::record::read_int;
use crate::record::read_text;
use crate::record::text_or;
use crate::record::DecodeError;
use crate::record::ItemRecord;
use crate::record::RecordView;
use crate::text::decimal;
use crate::text::pad_left;
use crate::text::push_padded;
use crate::text::texts;

verus! {

/// How many items are loaded at once.
pub const INITIAL_LOADED_ITEMS: usize = 20;

/// The size of the next batch when `remaining` ids are not loaded yet.
pub open spec fn batch_size(remaining: nat) -> nat {
    if remaining < INITIAL_LOADED_ITEMS {
        remaining
    } else {
        INITIAL_LOADED_ITEMS as nat
    }
}

/// The size of the next batch when `remaining` ids are not loaded yet: all
/// of them, but at most `INITIAL_LOADED_ITEMS`.
pub fn window(remaining: usize) -> (count: usize)
    ensures
        count == batch_size(remaining as nat),
{
    if remaining < INITIAL_LOADED_ITEMS {
        remaining
    } else {
        INITIAL_LOADED_ITEMS
    }
}

/// The first of the keys a title line reads whose value is malformed, in
/// the order score, author, comment count, title.
pub open spec fn title_error(rec: RecordView) -> Option<DecodeError> {
    if rec.score is Malformed {
        Some(DecodeError::Score)
    } else if rec.author is Malformed {
        Some(DecodeError::Author)
    } else if rec.descendants is Malformed {
        Some(DecodeError::Descendants)
    } else if rec.title is Malformed {
        Some(DecodeError::Title)
    } else {
        None
    }
}

/// The title line of a record: the score right-aligned in four columns,
/// the comment count right-aligned in three, the title and the author,
/// each with its default where the key is absent.
pub open spec fn title_line(rec: RecordView) -> Seq<char> {
    pad_left(decimal(int_or(rec.score, 0).unwrap() as int), 4) + " points | "@ + pad_left(
        decimal(int_or(rec.descendants, 0).unwrap() as int),
        3,
    ) + " comments | "@ + text_or(rec.title, ""@).unwrap() + " by "@ + text_or(
        rec.author,
        "None"@,
    ).unwrap() + " "@
}

/// The title lines of a batch, or the error of the first record that has
/// one.
pub open spec fn batch_titles(batch: Seq<RecordView>) -> Result<Seq<Seq<char>>, DecodeError>
    decreases batch.len(),
{
    if batch.len() == 0 {
        Ok(Seq::empty())
    } else {
        match batch_titles(batch.drop_last()) {
            Err(e) => Err(e),
            Ok(lines) => match title_error(batch.last()) {
                Some(e) => Err(e),
                None => Ok(lines.push(title_line(batch.last()))),
            },
        }
    }
}

/// The values of a sequence of records.
pub open spec fn record_views(items: Seq<ItemRecord>) -> Seq<RecordView> {
    Seq::new(items.len(), |i: int| items[i]@)
}

/// What the caller has to do after a step forward.
#[derive(Clone, Copy, Debug, PartialEq, Eq, Structural)]
pub enum Advance {
    /// Nothing: the step is complete.
    Moved,
    /// Fetch the items of `count` ids from index `start` on and hand them
    /// to `extend`, which completes the step.
    Fetch { start: usize, count: usize },
    /// Nothing: a batch was asked for before and has not arrived.
    Busy,
}

/// Why a list was not made or not extended.
#[derive(Clone, Copy, Debug, PartialEq, Eq, Structural)]
pub enum ListError {
    /// The batch has not the number of items that was asked for.
    BatchSize,
    /// No batch was asked for.
    NotAwaiting,
    /// A record of the batch has a malformed key.
    Decode(DecodeError),
}

/// Mathematical value of a `StoryList`.
pub ghost struct ListView {
    pub ids: Seq<Seq<char>>,
    pub items: Seq<RecordView>,
    pub titles: Seq<Seq<char>>,
    pub cursor: Option<usize>,
    pub focused: bool,
    pub awaiting: bool,
}

impl ListView {
    /// The invariant of a list: no more items are loaded than there are
    /// ids, and at least one where there is any id; each loaded item has
    /// its title line at its own index; the cursor, where set, points at a
    /// loaded item; and a batch is awaited only while ids are left to load.
    pub open spec fn well_formed(self) -> bool {
        &&& self.items.len() <= self.ids.len()
        &&& self.ids.len() <= usize::MAX
        &&& (self.ids.len() > 0 ==> self.items.len() > 0)
        &&& batch_titles(self.items) == Ok::<_, DecodeError>(self.titles)
        &&& (self.cursor matches Some(c) ==> c < self.items.len())
        &&& (self.awaiting ==> self.items.len() < self.ids.len())
    }

    /// Whether a step forward has to load more: the cursor is on the last
    /// loaded item and ids are left.
    pub open spec fn at_frontier(self) -> bool {
        &&& self.cursor matches Some(c)
        &&& c + 1 >= self.items.len()
        &&& self.items.len() < self.ids.len()
    }

    /// What `next` asks of the caller.
    pub open spec fn request(self) -> Advance {
        if self.awaiting {
            Advance::Busy
        } else if self.at_frontier() {
            Advance::Fetch {
                start: self.items.len() as usize,
                count: batch_size((self.ids.len() - self.items.len()) as nat) as usize,
            }
        } else {
            Advance::Moved
        }
    }

    /// The list after `next`: unchanged while a batch is awaited; awaiting
    /// at the frontier; else the cursor one further, on the first item
    /// where it was unset and there is one, and back on the first item from
    /// the last of all.
    pub open spec fn advance(self) -> ListView {
        if self.awaiting {
            self
        } else if self.at_frontier() {
            ListView { awaiting: true, ..self }
        } else {
            match self.cursor {
                None => if self.items.len() > 0 {
                    ListView { cursor: Some(0), ..self }
                } else {
                    self
                },
                Some(c) => if c + 1 < self.items.len() {
                    ListView { cursor: Some((c + 1) as usize), ..self }
                } else {
                    ListView { cursor: Some(0), ..self }
                },
            }
        }
    }

    /// The list after `previous`: the cursor one back, on the last loaded
    /// item from the first, and on the first item where it was unset and
    /// there is one.
    pub open spec fn retreat(self) -> ListView {
        match self.cursor {
            None => if self.items.len() > 0 {
                ListView { cursor: Some(0), ..self }
            } else {
                self
            },
            Some(c) => if c == 0 {
                ListView { cursor: Some((self.items.len() - 1) as usize), ..self }
            } else {
                ListView { cursor: Some((c - 1) as usize), ..self }
            },
        }
    }

    /// Why `extend` refuses a batch, if it does.
    pub open spec fn refusal(self, batch: Seq<RecordView>) -> Option<ListError> {
        if !self.awaiting {
            Some(ListError::NotAwaiting)
        } else if batch.len() != batch_size((self.ids.len() - self.items.len()) as nat) {
            Some(ListError::BatchSize)
        } else {
            match batch_titles(batch) {
                Err(e) => Some(ListError::Decode(e)),
                Ok(lines) => None,
            }
        }
    }

    /// The list after `extend`: unchanged where the batch is refused; else
    /// the batch and its title lines appended, the cursor on the first new
    /// item, and nothing awaited.
    pub open spec fn supplied(self, batch: Seq<RecordView>) -> ListView {
        if self.refusal(batch) is Some {
            self
        } else {
            ListView {
                items: self.items + batch,
                titles: self.titles + batch_titles(batch)->Ok_0,
                cursor: Some(self.items.len() as usize),
                awaiting: false,
                ..self
            }
        }
    }
}

/// The title lines of two batches side by side.
pub proof fn lemma_batch_titles_concat(left: Seq<RecordView>, right: Seq<RecordView>)
    requires
        batch_titles(left) is Ok,
        batch_titles(right) is Ok,
    ensures
        batch_titles(left + right) == Ok::<_, DecodeError>(
            batch_titles(left)->Ok_0 + batch_titles(right)->Ok_0,
        ),
    decreases right.len(),
{
    if right.len() > 0 {
        lemma_batch_titles_concat(left, right.drop_last());
        assert((left + right).drop_last() =~= left + right.drop_last());
    }
}

/// A batch without error has one title line for each record, at the
/// record's own index.
pub proof fn lemma_batch_titles_len(batch: Seq<RecordView>)
    requires
        batch_titles(batch) is Ok,
    ensures
        batch_titles(batch)->Ok_0.len() == batch.len(),
        forall|i: int| 0 <= i < batch.len() ==> title_error(#[trigger] batch[i]) is None,
        forall|i: int|
            0 <= i < batch.len() ==> (#[trigger] batch_titles(batch)->Ok_0[i]) == title_line(
                batch[i],
            ),
    decreases batch.len(),
{
    if batch.len() > 0 {
        let head = batch.drop_last();
        lemma_batch_titles_len(head);
        assert forall|i: int| 0 <= i < batch.len() implies title_error(#[trigger] batch[i])
            is None by {
            if i < head.len() {
                assert(batch[i] == head[i]);
            }
        }
    }
}

/// What can happen to a list.
pub ghost enum ListEvent {
    /// `next` is called.
    Next,
    /// `previous` is called.
    Previous,
    /// `unselect` is called.
    Unselect,
    /// `extend` is called with these records.
    Batch(Seq<RecordView>),
}

impl ListView {
    /// The list after one event.
    pub open spec fn step(self, event: ListEvent) -> ListView {
        match event {
            ListEvent::Next => self.advance(),
            ListEvent::Previous => self.retreat(),
            ListEvent::Unselect => ListView { cursor: None, ..self },
            ListEvent::Batch(batch) => self.supplied(batch),
        }
    }

    /// The list after a sequence of events.
    pub open spec fn run(self, events: Seq<ListEvent>) -> ListView
        decreases events.len(),
    {
        if events.len() == 0 {
            self
        } else {
            self.run(events.drop_last()).step(events.last())
        }
    }
}

/// One event keeps a list well-formed and its ids as they are, and can
/// only append to the loaded items and their title lines.
pub proof fn lemma_step_monotone(list: ListView, event: ListEvent)
    requires
        list.well_formed(),
    ensures
        list.step(event).well_formed(),
        list.step(event).ids == list.ids,
        list.items.len() <= list.step(event).items.len(),
        list.step(event).items.take(list.items.len() as int) == list.items,
        list.step(event).titles.take(list.titles.len() as int) == list.titles,
{
    match event {
        ListEvent::Batch(batch) => {
            if list.refusal(batch) is None {
                lemma_batch_titles_concat(list.items, batch);
                lemma_batch_titles_len(batch);
            }
        },
        _ => {},
    }
}

/// Pagination is monotone. Whatever is called in whatever order, the list
/// stays well-formed: the ids stay as they are, the loaded items only grow,
/// never beyond the ids, what was loaded stays where it was, and every
/// loaded item has its title line at its own index.
pub proof fn lemma_pagination_monotone(list: ListView, events: Seq<ListEvent>)
    requires
        list.well_formed(),
    ensures
        list.run(events).well_formed(),
        list.run(events).ids == list.ids,
        list.items.len() <= list.run(events).items.len() <= list.ids.len(),
        list.run(events).items.take(list.items.len() as int) == list.items,
        list.run(events).titles.take(list.titles.len() as int) == list.titles,
        list.run(events).titles.len() == list.run(events).items.len(),
        forall|i: int|
            0 <= i < list.run(events).items.len() ==> (#[trigger] list.run(events).titles[i])
                == title_line(list.run(events).items[i]),
    decreases events.len(),
{
    if events.len() > 0 {
        let before = list.run(events.drop_last());
        lemma_pagination_monotone(list, events.drop_last());
        lemma_step_monotone(before, events.last());
        lemma_batch_titles_len(list.items);
        lemma_batch_titles_len(before.items);
    }
    lemma_batch_titles_len(list.run(events).items);
}

/// The cursor wraps around. A step forward from the last of all ids goes
/// to the first item and asks for nothing; a step back from the first item
/// goes to the last loaded one.
pub proof fn lemma_wrap_around(list: ListView)
    requires
        list.well_formed(),
    ensures
        !list.awaiting && list.cursor == Some((list.ids.len() - 1) as usize) ==> list.advance()
            == (ListView { cursor: Some(0), ..list }) && list.request() == Advance::Moved,
        list.cursor == Some(0usize) ==> list.retreat() == (ListView {
            cursor: Some((list.items.len() - 1) as usize),
            ..list
        }),
{
}

/// A batch is sized by what is left. Where a step forward has to load,
/// the cursor is on the last loaded item, the batch starts right behind
/// it, holds as many ids as are left behind the cursor but at most
/// `INITIAL_LOADED_ITEMS`, at least one, and never reaches past the last
/// id.
pub proof fn lemma_batch_sizing(list: ListView)
    requires
        list.well_formed(),
        list.request() is Fetch,
    ensures
        list.cursor is Some,
        list.request()->start == list.cursor->0 + 1,
        list.request()->start == list.items.len(),
        list.request()->count == batch_size((list.ids.len() - (list.cursor->0 + 1)) as nat),
        1 <= list.request()->count <= INITIAL_LOADED_ITEMS,
        list.request()->start + list.request()->count <= list.ids.len(),
{
}

/// A step that loads is completed by its batch, and no batch is asked for
/// twice: while the batch is awaited `next` asks for nothing, and once a
/// batch of the size asked for has arrived, the cursor stands on its first
/// item.
pub proof fn lemma_fetch_once(list: ListView, batch: Seq<RecordView>)
    requires
        list.well_formed(),
        list.request() is Fetch,
    ensures
        list.advance().request() == Advance::Busy,
        list.advance().advance() == list.advance(),
        list.advance().refusal(batch) is None ==> {
            let after = list.advance().supplied(batch);
            &&& after.items == list.items + batch
            &&& after.items.len() == list.request()->start + list.request()->count
            &&& after.cursor == Some((list.cursor->0 + 1) as usize)
            &&& !after.awaiting
        },
{
}

/// The list of one category.
#[derive(Debug)]
pub struct StoryList {
    state: Option<usize>,
    items: Vec<ItemRecord>,
    ids: Vec<String>,
    titles: Vec<String>,
    focused: bool,
    awaiting: bool,
}

impl View for StoryList {
    type V = ListView;

    closed spec fn view(&self) -> ListView {
        ListView {
            ids: texts(self.ids@),
            items: record_views(self.items@),
            titles: texts(self.titles@),
            cursor: self.state,
            focused: self.focused,
            awaiting: self.awaiting,
        }
    }
}

fn render_titles(batch: &Vec<ItemRecord>) -> (r: Result<Vec<String>, DecodeError>)
    ensures
        r matches Ok(lines) ==> batch_titles(record_views(batch@)) == Ok::<_, DecodeError>(
            texts(lines@),
        ),
        r matches Err(e) ==> batch_titles(record_views(batch@)) == Err::<Seq<Seq<char>>, _>(e),
{
    let ghost all = record_views(batch@);
    let mut lines: Vec<String> = Vec::new();
    let mut i: usize = 0;
    assert(texts(lines@) =~= Seq::empty());
    while i < batch.len()
        invariant
            all == record_views(batch@),
            i <= batch@.len(),
            batch_titles(all.take(i as int)) == Ok::<_, DecodeError>(texts(lines@)),
        decreases batch@.len() - i,
    {
        proof {
            assert(all.take(i + 1).drop_last() =~= all.take(i as int));
        }
        match StoryList::to_title(&batch[i]) {
            Ok(line) => {
                let ghost before = lines@;
                lines.push(line);
                assert(texts(lines@) =~= texts(before).push(line@));
            },
            Err(e) => {
                proof {
                    lemma_batch_titles_prefix_error(all, i + 1);
                }
                return Err(e);
            },
        }
        i = i + 1;
    }
    assert(all.take(i as int) =~= all);
    Ok(lines)
}

/// An error among the first records of a batch is the error of the batch.
pub proof fn lemma_batch_titles_prefix_error(batch: Seq<RecordView>, n: int)
    requires
        0 <= n <= batch.len(),
        batch_titles(batch.take(n)) is Err,
    ensures
        batch_titles(batch) == batch_titles(batch.take(n)),
    decreases batch.len() - n,
{
    if n < batch.len() {
        assert(batch.take(n + 1).drop_last() =~= batch.take(n));
        lemma_batch_titles_prefix_error(batch, n + 1);
    } else {
        assert(batch.take(n) =~= batch);
    }
}

impl StoryList {
    /// The title line of one record.
    pub fn to_title(item: &ItemRecord) -> (r: Result<String, DecodeError>)
        ensures
            r matches Ok(line) ==> title_error(item@) is None && line@ == title_line(item@),
            r matches Err(e) ==> title_error(item@) == Some(e),
    {
        let score = match read_int(&item.score, 0) {
            Some(n) => n,
            None => {
                return Err(DecodeError::Score);
            },
        };
        let author = match read_text(&item.author, "None") {
            Some(s) => s,
            None => {
                return Err(DecodeError::Author);
            },
        };
        let n_comments = match read_int(&item.descendants, 0) {
            Some(n) => n,
            None => {
                return Err(DecodeError::Descendants);
            },
        };
        let name = match read_text(&item.title, "") {
            Some(s) => s,
            None => {
                return Err(DecodeError::Title);
            },
        };
        let mut title = String::new();
        push_padded(&mut title, score, 4);
        title.append(" points | ");
        push_padded(&mut title, n_comments, 3);
        title.append(" comments | ");
        title.append(name.as_str());
        title.append(" by ");
        title.append(author.as_str());
        title.append(" ");
        Ok(title)
    }

    /// The list of a category from all its ids and the items of the first
    /// of them: as many as one batch holds, or all where there are fewer.
    /// The first item is selected and the list has the focus.
    pub fn new(ids: Vec<String>, items: Vec<ItemRecord>) -> (r: Result<StoryList, ListError>)
        ensures
            r matches Ok(list) ==> {
                &&& items@.len() == batch_size(ids@.len())
                &&& batch_titles(record_views(items@)) is Ok
                &&& list@ == (ListView {
                    ids: texts(ids@),
                    items: record_views(items@),
                    titles: batch_titles(record_views(items@))->Ok_0,
                    cursor: if items@.len() > 0 {
                        Some(0usize)
                    } else {
                        None
                    },
                    focused: true,
                    awaiting: false,
                })
                &&& list@.well_formed()
            },
            r matches Err(e) ==> if items@.len() != batch_size(ids@.len()) {
                e == ListError::BatchSize
            } else {
                batch_titles(record_views(items@)) matches Err(d) && e == ListError::Decode(d)
            },
    {
        if items.len() != window(ids.len()) {
            return Err(ListError::BatchSize);
        }
        let titles = match render_titles(&items) {
            Ok(titles) => titles,
            Err(e) => {
                return Err(ListError::Decode(e));
            },
        };
        let state: Option<usize> = if items.len() > 0 {
            Some(0)
        } else {
            None
        };
        Ok(StoryList { state, items, ids, titles, focused: true, awaiting: false })
    }

    /// Steps the cursor forward. At the last loaded item with ids left the
    /// step waits for a batch, which the caller fetches and hands to
    /// `extend`.
    pub fn next(&mut self) -> (action: Advance)
        requires
            old(self)@.well_formed(),
        ensures
            final(self)@ == old(self)@.advance(),
            action == old(self)@.request(),
            final(self)@.well_formed(),
    {
        if self.awaiting {
            return Advance::Busy;
        }
        match self.state {
            None => {
                if self.items.len() > 0 {
                    self.state = Some(0);
                }
                Advance::Moved
            },
            Some(c) => {
                if c + 1 < self.items.len() {
                    self.state = Some(c + 1);
                    Advance::Moved
                } else if self.items.len() < self.ids.len() {
                    self.awaiting = true;
                    let count: usize = window(self.ids.len() - self.items.len());
                    Advance::Fetch { start: self.items.len(), count }
                } else {
                    self.state = Some(0);
                    Advance::Moved
                }
            },
        }
    }

    /// Completes a step forward with the batch that `next` asked for.
    pub fn extend(&mut self, batch: Vec<ItemRecord>) -> (r: Result<(), ListError>)
        requires
            old(self)@.well_formed(),
        ensures
            final(self)@ == old(self)@.supplied(record_views(batch@)),
            r == match old(self)@.refusal(record_views(batch@)) {
                Some(e) => Err::<(), _>(e),
                None => Ok(()),
            },
            final(self)@.well_formed(),
    {
        if !self.awaiting {
            return Err(ListError::NotAwaiting);
        }
        if batch.len() != window(self.ids.len() - self.items.len()) {
            return Err(ListError::BatchSize);
        }
        let mut lines = match render_titles(&batch) {
            Ok(lines) => lines,
            Err(e) => {
                return Err(ListError::Decode(e));
            },
        };
        let first_new: usize = self.items.len();
        let ghost old_items = self.items@;
        let ghost old_titles = self.titles@;
        let ghost new_lines = lines@;
        let mut batch = batch;
        let ghost new_items = batch@;
        self.items.append(&mut batch);
        self.titles.append(&mut lines);
        self.state = Some(first_new);
        self.awaiting = false;
        proof {
            assert(record_views(old_items + new_items) =~= record_views(old_items) + record_views(
                new_items,
            ));
            assert(texts(old_titles + new_lines) =~= texts(old_titles) + texts(new_lines));
            lemma_batch_titles_concat(record_views(old_items), record_views(new_items));
        }
        Ok(())
    }

    /// Steps the cursor back; never loads.
    pub fn previous(&mut self)
        requires
            old(self)@.well_formed(),
        ensures
            final(self)@ == old(self)@.retreat(),
            final(self)@.well_formed(),
    {
        match self.state {
            None => {
                if self.items.len() > 0 {
                    self.state = Some(0);
                }
            },
            Some(c) => {
                if c == 0 {
                    self.state = Some(self.items.len() - 1);
                } else {
                    self.state = Some(c - 1);
                }
            },
        }
    }

    /// Clears the selection.
    pub fn unselect(&mut self)
        ensures
            final(self)@ == (ListView { cursor: None, ..old(self)@ }),
            old(self)@.well_formed() ==> final(self)@.well_formed(),
    {
        self.state = None;
    }

    /// Gives or takes the focus.
    pub fn set_focused(&mut self, focused: bool)
        ensures
            final(self)@ == (ListView { focused, ..old(self)@ }),
            old(self)@.well_formed() ==> final(self)@.well_formed(),
    {
        self.focused = focused;
    }

    /// The index of the selected item.
    pub fn selected(&self) -> (cursor: Option<usize>)
        ensures
            cursor == self@.cursor,
    {
        self.state
    }

    /// The selected item.
    pub fn selected_item(&self) -> (item: Option<&ItemRecord>)
        requires
            self@.well_formed(),
        ensures
            item is Some <==> self@.cursor is Some,
            item matches Some(rec) ==> rec@ == self@.items[self@.cursor->0 as int],
    {
        match self.state {
            None => None,
            Some(c) => Some(&self.items[c]),
        }
    }

    /// Whether the list has the focus.
    pub fn is_focused(&self) -> (focused: bool)
        ensures
            focused == self@.focused,
    {
        self.focused
    }

    /// Whether a batch is awaited.
    pub fn is_awaiting(&self) -> (awaiting: bool)
        ensures
            awaiting == self@.awaiting,
    {
        self.awaiting
    }

    /// All ids of the category.
    pub fn ids(&self) -> (ids: &Vec<String>)
        ensures
            texts(ids@) == self@.ids,
    {
        &self.ids
    }

    /// The loaded items.
    pub fn items(&self) -> (items: &Vec<ItemRecord>)
        ensures
            record_views(items@) == self@.items,
    {
        &self.items
    }

    /// The title lines of the loaded items.
    pub fn titles(&self) -> (titles: &Vec<String>)
        ensures
            texts(titles@) == self@.titles,
    {
        &self.titles
    }
}

} // verus!
