use hn_reader::record::DecodeError;
use hn_reader::record::Field;
use hn_reader::record::ItemRecord;
use hn_reader::story_list::window;
use hn_reader::story_list::Advance;
use hn_reader::story_list::ListError;
use hn_reader::story_list::StoryList;
use hn_reader::story_list::INITIAL_LOADED_ITEMS;

fn ids_one_to(n: usize) -> Vec<String> {
    (1..=n).map(|i| i.to_string()).collect()
}

fn item(number: usize) -> ItemRecord {
    let mut rec = ItemRecord::empty();
    rec.kind = Field::Present("story".to_string());
    rec.title = Field::Present(format!("Story {}", number));
    rec.score = Field::Present(number as i64);
    rec.author = Field::Present(format!("user{}", number));
    rec.descendants = Field::Present(2 * number as i64);
    rec
}

fn items_from_to(first: usize, last: usize) -> Vec<ItemRecord> {
    (first..=last).map(item).collect()
}

fn expected_title(number: usize) -> String {
    format!(
        "{:>4} points | {:>3} comments | {} by {} ",
        number,
        2 * number,
        format!("Story {}", number),
        format!("user{}", number)
    )
}

fn list_of(total: usize) -> StoryList {
    let first = if total < 20 { total } else { 20 };
    StoryList::new(ids_one_to(total), items_from_to(1, first)).unwrap()
}

#[test]
fn title_line_has_fixed_columns() {
    let mut rec = ItemRecord::empty();
    rec.score = Field::Present(123);
    rec.descendants = Field::Present(45);
    rec.title = Field::Present("Hello".to_string());
    rec.author = Field::Present("bob".to_string());
    assert_eq!(StoryList::to_title(&rec).unwrap(), " 123 points |  45 comments | Hello by bob ");
}

#[test]
fn title_line_of_an_empty_record() {
    assert_eq!(
        StoryList::to_title(&ItemRecord::empty()).unwrap(),
        "   0 points |   0 comments |  by None "
    );
}

#[test]
fn title_line_lets_wide_numbers_run_over() {
    let mut rec = ItemRecord::empty();
    rec.score = Field::Present(12345);
    rec.descendants = Field::Present(6789);
    rec.title = Field::Present("T".to_string());
    rec.author = Field::Present("a".to_string());
    assert_eq!(StoryList::to_title(&rec).unwrap(), "12345 points | 6789 comments | T by a ");
    rec.score = Field::Present(-7);
    rec.descendants = Field::Present(-1);
    assert_eq!(StoryList::to_title(&rec).unwrap(), "  -7 points |  -1 comments | T by a ");
}

#[test]
fn title_line_does_not_look_at_kind_link_or_body() {
    let mut rec = ItemRecord::empty();
    rec.kind = Field::Malformed;
    rec.url = Field::Malformed;
    rec.text = Field::Malformed;
    rec.kids = Field::Malformed;
    assert_eq!(StoryList::to_title(&rec).unwrap(), "   0 points |   0 comments |  by None ");
}

#[test]
fn title_line_reports_the_first_malformed_key() {
    let mut rec = ItemRecord::empty();
    rec.title = Field::Malformed;
    assert_eq!(StoryList::to_title(&rec), Err(DecodeError::Title));
    rec.descendants = Field::Malformed;
    assert_eq!(StoryList::to_title(&rec), Err(DecodeError::Descendants));
    rec.author = Field::Malformed;
    assert_eq!(StoryList::to_title(&rec), Err(DecodeError::Author));
    rec.score = Field::Malformed;
    assert_eq!(StoryList::to_title(&rec), Err(DecodeError::Score));
}

#[test]
fn a_batch_holds_twenty_items() {
    assert_eq!(INITIAL_LOADED_ITEMS, 20);
}

#[test]
fn a_window_is_what_is_left_up_to_a_batch() {
    assert_eq!(window(0), 0);
    assert_eq!(window(1), 1);
    assert_eq!(window(5), 5);
    assert_eq!(window(19), 19);
    assert_eq!(window(20), 20);
    assert_eq!(window(21), 20);
    assert_eq!(window(480), 20);
    assert_eq!(window(usize::MAX), 20);
}

#[test]
fn new_list_shows_the_first_window() {
    let list = list_of(25);
    assert_eq!(list.ids(), &ids_one_to(25));
    assert_eq!(list.items(), &items_from_to(1, 20));
    assert_eq!(list.titles().len(), 20);
    for i in 0..20 {
        assert_eq!(list.titles()[i], expected_title(i + 1));
    }
    assert_eq!(list.selected(), Some(0));
    assert!(list.is_focused());
    assert!(!list.is_awaiting());
}

#[test]
fn new_list_takes_all_of_a_short_category() {
    let list = list_of(3);
    assert_eq!(list.items().len(), 3);
    assert_eq!(list.titles().len(), 3);
    assert_eq!(list.selected(), Some(0));
}

#[test]
fn new_list_of_no_ids_selects_nothing() {
    let mut list = StoryList::new(Vec::new(), Vec::new()).unwrap();
    assert_eq!(list.selected(), None);
    assert_eq!(list.next(), Advance::Moved);
    assert_eq!(list.selected(), None);
    list.previous();
    assert_eq!(list.selected(), None);
}

#[test]
fn new_list_wants_exactly_the_first_window() {
    assert_eq!(
        StoryList::new(ids_one_to(25), items_from_to(1, 19)).err(),
        Some(ListError::BatchSize)
    );
    assert_eq!(
        StoryList::new(ids_one_to(25), items_from_to(1, 21)).err(),
        Some(ListError::BatchSize)
    );
    assert_eq!(
        StoryList::new(ids_one_to(25), items_from_to(1, 25)).err(),
        Some(ListError::BatchSize)
    );
    assert_eq!(
        StoryList::new(ids_one_to(3), items_from_to(1, 2)).err(),
        Some(ListError::BatchSize)
    );
    assert_eq!(StoryList::new(ids_one_to(3), Vec::new()).err(), Some(ListError::BatchSize));
    assert_eq!(StoryList::new(Vec::new(), items_from_to(1, 1)).err(), Some(ListError::BatchSize));
}

#[test]
fn new_list_reports_a_malformed_record() {
    let mut items = items_from_to(1, 5);
    items[3].author = Field::Malformed;
    items[4].score = Field::Malformed;
    assert_eq!(
        StoryList::new(ids_one_to(5), items).err(),
        Some(ListError::Decode(DecodeError::Author))
    );
}

#[test]
fn twenty_five_ids_load_in_two_batches() {
    let mut list = list_of(25);
    assert_eq!(list.items().len(), 20);
    for step in 1..=19 {
        assert_eq!(list.next(), Advance::Moved);
        assert_eq!(list.selected(), Some(step));
        assert_eq!(list.items().len(), 20);
    }
    assert_eq!(list.selected(), Some(19));
    assert_eq!(list.next(), Advance::Fetch { start: 20, count: 5 });
    assert!(list.is_awaiting());
    assert_eq!(list.selected(), Some(19));
    assert_eq!(list.items().len(), 20);
    assert_eq!(&list.ids()[20..25], &ids_one_to(25)[20..25]);
    assert_eq!(list.extend(items_from_to(21, 25)), Ok(()));
    assert!(!list.is_awaiting());
    assert_eq!(list.selected(), Some(20));
    assert_eq!(list.items(), &items_from_to(1, 25));
    assert_eq!(list.titles().len(), 25);
    for i in 0..25 {
        assert_eq!(list.titles()[i], expected_title(i + 1));
    }
}

#[test]
fn loaded_items_only_grow_and_stay_aligned() {
    let mut list = list_of(47);
    let mut loaded = list.items().len();
    for _ in 0..120 {
        match list.next() {
            Advance::Moved => {}
            Advance::Busy => panic!("nothing was awaited"),
            Advance::Fetch { start, count } => {
                assert_eq!(start, list.items().len());
                list.extend(items_from_to(start + 1, start + count)).unwrap();
            }
        }
        assert!(list.items().len() >= loaded);
        assert!(list.items().len() <= list.ids().len());
        assert_eq!(list.titles().len(), list.items().len());
        loaded = list.items().len();
        for i in 0..loaded {
            assert_eq!(list.items()[i], item(i + 1));
            assert_eq!(list.titles()[i], expected_title(i + 1));
        }
        let cursor = list.selected().unwrap();
        assert!(cursor < loaded);
    }
    assert_eq!(loaded, 47);
}

#[test]
fn next_wraps_from_the_last_id_to_the_first() {
    let mut list = list_of(25);
    for _ in 0..19 {
        list.next();
    }
    list.next();
    list.extend(items_from_to(21, 25)).unwrap();
    for _ in 0..4 {
        assert_eq!(list.next(), Advance::Moved);
    }
    assert_eq!(list.selected(), Some(24));
    assert_eq!(list.next(), Advance::Moved);
    assert_eq!(list.selected(), Some(0));
    assert_eq!(list.items().len(), 25);
}

#[test]
fn next_wraps_in_a_short_category_without_loading() {
    let mut list = list_of(3);
    assert_eq!(list.next(), Advance::Moved);
    assert_eq!(list.next(), Advance::Moved);
    assert_eq!(list.selected(), Some(2));
    assert_eq!(list.next(), Advance::Moved);
    assert_eq!(list.selected(), Some(0));
}

#[test]
fn previous_wraps_from_the_first_to_the_last_loaded() {
    let mut list = list_of(25);
    list.previous();
    assert_eq!(list.selected(), Some(19));
    assert_eq!(list.items().len(), 20);
    assert!(!list.is_awaiting());
    list.previous();
    assert_eq!(list.selected(), Some(18));
}

#[test]
fn previous_never_loads() {
    let mut list = list_of(60);
    for _ in 0..100 {
        list.previous();
        assert!(!list.is_awaiting());
        assert_eq!(list.items().len(), 20);
        assert!(list.selected().unwrap() < 20);
    }
}

#[test]
fn batch_is_sized_by_what_is_left() {
    let mut list = list_of(50);
    list.previous();
    assert_eq!(list.next(), Advance::Fetch { start: 20, count: 20 });
    list.extend(items_from_to(21, 40)).unwrap();
    assert_eq!(list.selected(), Some(20));
    for _ in 0..19 {
        assert_eq!(list.next(), Advance::Moved);
    }
    assert_eq!(list.selected(), Some(39));
    assert_eq!(list.next(), Advance::Fetch { start: 40, count: 10 });
    list.extend(items_from_to(41, 50)).unwrap();
    assert_eq!(list.selected(), Some(40));
    assert_eq!(list.items().len(), 50);
}

#[test]
fn batch_of_one_id() {
    let mut list = list_of(21);
    list.previous();
    assert_eq!(list.next(), Advance::Fetch { start: 20, count: 1 });
    list.extend(items_from_to(21, 21)).unwrap();
    assert_eq!(list.selected(), Some(20));
    assert_eq!(list.next(), Advance::Moved);
    assert_eq!(list.selected(), Some(0));
}

#[test]
fn a_batch_is_asked_for_once() {
    let mut list = list_of(25);
    list.previous();
    assert_eq!(list.next(), Advance::Fetch { start: 20, count: 5 });
    assert_eq!(list.next(), Advance::Busy);
    assert_eq!(list.next(), Advance::Busy);
    assert_eq!(list.selected(), Some(19));
    assert_eq!(list.items().len(), 20);
    list.extend(items_from_to(21, 25)).unwrap();
    assert_eq!(list.next(), Advance::Moved);
    assert_eq!(list.selected(), Some(21));
}

#[test]
fn extend_refuses_what_was_not_asked_for() {
    let mut list = list_of(25);
    assert_eq!(list.extend(items_from_to(21, 25)), Err(ListError::NotAwaiting));
    assert_eq!(list.items().len(), 20);
    assert_eq!(list.selected(), Some(0));
}

#[test]
fn extend_refuses_a_batch_of_another_size() {
    let mut list = list_of(25);
    list.previous();
    list.next();
    assert_eq!(list.extend(items_from_to(21, 24)), Err(ListError::BatchSize));
    assert_eq!(list.extend(Vec::new()), Err(ListError::BatchSize));
    assert_eq!(list.extend(items_from_to(21, 26)), Err(ListError::BatchSize));
    assert!(list.is_awaiting());
    assert_eq!(list.items().len(), 20);
    assert_eq!(list.titles().len(), 20);
    assert_eq!(list.selected(), Some(19));
    assert_eq!(list.extend(items_from_to(21, 25)), Ok(()));
    assert_eq!(list.items().len(), 25);
}

#[test]
fn extend_refuses_a_malformed_record_whole() {
    let mut list = list_of(25);
    list.previous();
    list.next();
    let mut batch = items_from_to(21, 25);
    batch[2].title = Field::Malformed;
    batch[4].score = Field::Malformed;
    assert_eq!(list.extend(batch), Err(ListError::Decode(DecodeError::Title)));
    assert!(list.is_awaiting());
    assert_eq!(list.items().len(), 20);
    assert_eq!(list.titles().len(), 20);
    assert_eq!(list.selected(), Some(19));
}

#[test]
fn unselect_clears_the_cursor_and_next_starts_over() {
    let mut list = list_of(25);
    list.next();
    list.next();
    list.unselect();
    assert_eq!(list.selected(), None);
    assert_eq!(list.selected_item(), None);
    assert_eq!(list.next(), Advance::Moved);
    assert_eq!(list.selected(), Some(0));
    list.unselect();
    list.previous();
    assert_eq!(list.selected(), Some(0));
}

#[test]
fn selected_item_is_the_one_under_the_cursor() {
    let mut list = list_of(25);
    assert_eq!(list.selected_item(), Some(&item(1)));
    list.next();
    list.next();
    assert_eq!(list.selected_item(), Some(&item(3)));
    list.previous();
    assert_eq!(list.selected_item(), Some(&item(2)));
}

#[test]
fn focus_mark_is_set_and_cleared() {
    let mut list = list_of(3);
    assert!(list.is_focused());
    list.set_focused(false);
    assert!(!list.is_focused());
    assert_eq!(list.selected(), Some(0));
    list.set_focused(true);
    assert!(list.is_focused());
}
